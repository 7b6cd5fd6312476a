//! A JSON document as the payload readers see it: a tree of values, each
//! node with the text that renders it. The tree is read from a backend's
//! reply by the caller; the readers only look values up in it.
use vstd::prelude::*;

verus! {

/// What the readers use of a JSON number: its value as a `u64`, where it
/// is one.
#[derive(Debug, Clone, Copy, PartialEq, Eq, Structural)]
pub struct JsonNumber {
    pub as_u64: Option<u64>,
}

/// A JSON value.
#[derive(Debug)]
pub enum JsonValue {
    Null,
    Bool(bool),
    Number(JsonNumber),
    Str(String),
    Array(Vec<JsonNode>),
    Object(Vec<JsonMember>),
}

/// A JSON value with the text that renders it.
#[derive(Debug)]
pub struct JsonNode {
    pub value: JsonValue,
    pub text: String,
}

/// A member of a JSON object.
#[derive(Debug)]
pub struct JsonMember {
    pub key: String,
    pub node: JsonNode,
}

/// The node under the first member named `key` from `i` on.
pub open spec fn member_from(ms: Seq<JsonMember>, key: Seq<char>, i: int) -> Option<JsonNode>
    decreases ms.len() - i,
{
    if i < 0 || i >= ms.len() {
        None
    } else if ms[i].key@ == key {
        Some(ms[i].node)
    } else {
        member_from(ms, key, i + 1)
    }
}

/// The member `key` of `n`, where `n` is an object that has one.
pub open spec fn member(n: Option<JsonNode>, key: Seq<char>) -> Option<JsonNode> {
    match n {
        Some(node) => match node.value {
            JsonValue::Object(ms) => member_from(ms@, key, 0),
            _ => None,
        },
        None => None,
    }
}

/// The text of `n`, where it is a string.
pub open spec fn str_value(n: Option<JsonNode>) -> Option<Seq<char>> {
    match n {
        Some(node) => match node.value {
            JsonValue::Str(s) => Some(s@),
            _ => None,
        },
        None => None,
    }
}

/// The elements of `n`, where it is an array.
pub open spec fn array_value(n: Option<JsonNode>) -> Option<Seq<JsonNode>> {
    match n {
        Some(node) => match node.value {
            JsonValue::Array(a) => Some(a@),
            _ => None,
        },
        None => None,
    }
}

/// The value of `n`, where it is a boolean.
pub open spec fn bool_value(n: Option<JsonNode>) -> Option<bool> {
    match n {
        Some(node) => match node.value {
            JsonValue::Bool(b) => Some(b),
            _ => None,
        },
        None => None,
    }
}

/// The value of `n`, where it is a number that fits a `u64`.
pub open spec fn u64_value(n: Option<JsonNode>) -> Option<u64> {
    match n {
        Some(node) => match node.value {
            JsonValue::Number(x) => x.as_u64,
            _ => None,
        },
        None => None,
    }
}

/// The node a reference points to, if any.
pub open spec fn deref(n: Option<&JsonNode>) -> Option<JsonNode> {
    match n {
        Some(x) => Some(*x),
        None => None,
    }
}

/// The member `key` of `n`.
#[verifier::loop_isolation(false)]
pub fn get<'a>(n: Option<&'a JsonNode>, key: &str) -> (r: Option<&'a JsonNode>)
    ensures
        deref(r) == member(deref(n), key@),
{
    let node = match n {
        Some(node) => node,
        None => {
            return None;
        },
    };
    let ms = match &node.value {
        JsonValue::Object(ms) => ms,
        _ => {
            return None;
        },
    };
    let mut i: usize = 0;
    while i < ms.len()
        invariant
            i <= ms@.len(),
            member_from(ms@, key@, 0) == member_from(ms@, key@, i as int),
        decreases ms@.len() - i,
    {
        if crate::text::str_eq(ms[i].key.as_str(), key) {
            return Some(&ms[i].node);
        }
        i = i + 1;
    }
    None
}

/// The text of `n`, where it is a string.
pub fn as_str<'a>(n: Option<&'a JsonNode>) -> (r: Option<&'a str>)
    ensures
        match r {
            Some(s) => str_value(deref(n)) == Some(s@),
            None => str_value(deref(n)) is None,
        },
{
    match n {
        Some(node) => match &node.value {
            JsonValue::Str(s) => Some(s.as_str()),
            _ => None,
        },
        None => None,
    }
}

/// The elements of `n`, where it is an array.
pub fn as_array<'a>(n: Option<&'a JsonNode>) -> (r: Option<&'a Vec<JsonNode>>)
    ensures
        match r {
            Some(a) => array_value(deref(n)) == Some(a@),
            None => array_value(deref(n)) is None,
        },
{
    match n {
        Some(node) => match &node.value {
            JsonValue::Array(a) => Some(a),
            _ => None,
        },
        None => None,
    }
}

/// The value of `n`, where it is a boolean.
pub fn as_bool(n: Option<&JsonNode>) -> (r: Option<bool>)
    ensures
        r == bool_value(deref(n)),
{
    match n {
        Some(node) => match &node.value {
            JsonValue::Bool(b) => Some(*b),
            _ => None,
        },
        None => None,
    }
}

/// The value of `n`, where it is a number that fits a `u64`.
pub fn as_u64(n: Option<&JsonNode>) -> (r: Option<u64>)
    ensures
        r == u64_value(deref(n)),
{
    match n {
        Some(node) => match &node.value {
            JsonValue::Number(x) => x.as_u64,
            _ => None,
        },
        None => None,
    }
}

} // verus!
