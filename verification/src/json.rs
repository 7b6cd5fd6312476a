//! JSON values as the library holds them: their serialized text. What only
//! a JSON parser can tell (whether a text parses, the keys of an object) or
//! write (a quoted string) comes from `serde_json`.
use vstd::prelude::*;

verus! {

/// A JSON value, held as its serialized text.
#[derive(Debug, PartialEq, Eq)]
pub struct JsonText {
    pub text: String,
}

impl JsonText {
    pub fn duplicate(&self) -> (r: JsonText)
        ensures
            r == *self,
    {
        JsonText { text: self.text.clone() }
    }
}

/// Whether `serde_json` parses `text` as a JSON value.
pub uninterp spec fn is_json(text: Seq<char>) -> bool;

/// The keys of the JSON object that `text` holds, in the order in which
/// `serde_json`'s map yields them; `None` when `text` is not an object.
pub uninterp spec fn json_object_keys_of(text: Seq<char>) -> Option<Seq<Seq<char>>>;

/// The lowercase hexadecimal digit of `n` (0 to 15).
pub open spec fn hex_digit(n: int) -> char {
    if n < 10 {
        (('0' as int) + n) as char
    } else {
        (('a' as int) + n - 10) as char
    }
}

/// How `serde_json` writes one character inside a string literal: the
/// quote and the backslash behind a backslash, the five named control
/// characters by their letters, the other control characters below 0x20 as
/// `\u00` and two lowercase hexadecimal digits, everything else as it is.
pub open spec fn json_escape_char(c: char) -> Seq<char> {
    if c == '"' {
        seq!['\\', '"']
    } else if c == '\\' {
        seq!['\\', '\\']
    } else if c == '\u{8}' {
        seq!['\\', 'b']
    } else if c == '\t' {
        seq!['\\', 't']
    } else if c == '\n' {
        seq!['\\', 'n']
    } else if c == '\u{c}' {
        seq!['\\', 'f']
    } else if c == '\r' {
        seq!['\\', 'r']
    } else if (c as int) < 0x20 {
        seq!['\\', 'u', '0', '0', hex_digit((c as int) / 16), hex_digit((c as int) % 16)]
    } else {
        seq![c]
    }
}

/// The characters of `s`, each escaped as `serde_json` writes it.
pub open spec fn json_escaped(s: Seq<char>) -> Seq<char>
    decreases s.len(),
{
    if s.len() == 0 {
        Seq::empty()
    } else {
        json_escaped(s.drop_last()) + json_escape_char(s.last())
    }
}

/// The JSON string literal that `serde_json` writes for `s`: the escaped
/// characters between two quotes.
pub open spec fn json_quoted(s: Seq<char>) -> Seq<char> {
    seq!['"'] + json_escaped(s) + seq!['"']
}

/// `serde_json::from_str::<serde_json::Value>`: whether `text` parses.
/// Nothing is claimed of the parser beyond that it decides the same way for
/// the same text.
#[verifier::external_body]
pub(crate) fn json_parses(text: &str) -> (r: bool)
    ensures
        r == is_json(text@),
{
    serde_json::from_str::<serde_json::Value>(text).is_ok()
}

/// `serde_json::from_str::<serde_json::Value>` and, for an object, the keys
/// of its map (`serde_json::Map::keys`): the result is named, not
/// described.
#[verifier::external_body]
pub(crate) fn json_object_keys(text: &str) -> (r: Option<Vec<String>>)
    ensures
        match (r, json_object_keys_of(text@)) {
            (Some(keys), Some(ks)) => keys@.map_values(|k: String| k@) == ks,
            (None, None) => true,
            _ => false,
        },
{
    match serde_json::from_str::<serde_json::Value>(text) {
        Ok(serde_json::Value::Object(map)) => Some(map.keys().cloned().collect()),
        _ => None,
    }
}

/// `serde_json::to_string` of a text: its JSON string literal, escaped by
/// `serde_json`'s compact formatter (`format_escaped_str`) as
/// `json_quoted` states. Serializing a `str` does not fail.
#[verifier::external_body]
pub(crate) fn json_quote(s: &str) -> (r: String)
    ensures
        r@ == json_quoted(s@),
{
    serde_json::to_string(s).unwrap_or_default()
}

/// The message of the error `serde_json` reports for a text that does not
/// parse as a JSON value.
pub uninterp spec fn json_error_message_of(text: Seq<char>) -> Seq<char>;

/// `serde_json::from_str::<serde_json::Value>`: `None` where `text` parses,
/// else the error's message (`Display`). The message is named, not
/// described.
#[verifier::external_body]
pub(crate) fn json_parse_error(text: &str) -> (r: Option<String>)
    ensures
        r is None <==> is_json(text@),
        r matches Some(m) ==> m@ == json_error_message_of(text@),
{
    match serde_json::from_str::<serde_json::Value>(text) {
        Ok(_) => None,
        Err(e) => Some(e.to_string()),
    }
}

} // verus!
