//! JSON values that request bodies are built of, and what each of them
//! says as a plain value.
use vstd::prelude::*;

use crate::json::JsonText;

verus! {

/// A JSON value to send; `Raw` holds JSON text that goes in as it is.
#[derive(Debug)]
pub enum JsonOut {
    Null,
    Bool(bool),
    Number(u64),
    Str(String),
    Raw(JsonText),
    Array(Vec<JsonOut>),
    Object(Vec<JsonField>),
}

/// A member of an object to send.
#[derive(Debug)]
pub struct JsonField {
    pub key: String,
    pub value: JsonOut,
}

/// What a JSON value to send says.
pub enum JView {
    Null,
    Bool(bool),
    Number(u64),
    Str(Seq<char>),
    Raw(Seq<char>),
    Array(Seq<JView>),
    Object(Seq<(Seq<char>, JView)>),
}

/// What `o` says.
pub open spec fn jview(o: JsonOut) -> JView
    decreases o,
{
    match o {
        JsonOut::Null => JView::Null,
        JsonOut::Bool(b) => JView::Bool(b),
        JsonOut::Number(n) => JView::Number(n),
        JsonOut::Str(s) => JView::Str(s@),
        JsonOut::Raw(t) => JView::Raw(t.text@),
        JsonOut::Array(a) => JView::Array(
            Seq::new(a@.len(), |i: int| if 0 <= i < a@.len() { jview(a@[i]) } else { JView::Null }),
        ),
        JsonOut::Object(fs) => JView::Object(
            Seq::new(
                fs@.len(),
                |i: int| if 0 <= i < fs@.len() { (fs@[i].key@, jview(fs@[i].value)) } else { (Seq::empty(), JView::Null) },
            ),
        ),
    }
}

/// What the members `fs` say, in order.
pub open spec fn fields_view(fs: Seq<JsonField>) -> Seq<(Seq<char>, JView)> {
    Seq::new(
        fs.len(),
        |i: int| if 0 <= i < fs.len() { (fs[i].key@, jview(fs[i].value)) } else { (Seq::empty(), JView::Null) },
    )
}

/// What the elements `a` say, in order.
pub open spec fn items_view(a: Seq<JsonOut>) -> Seq<JView> {
    Seq::new(a.len(), |i: int| if 0 <= i < a.len() { jview(a[i]) } else { JView::Null })
}

/// A string value.
pub fn jstr(s: &str) -> (o: JsonOut)
    ensures
        jview(o) == JView::Str(s@),
{
    JsonOut::Str(String::from_str(s))
}

/// Adds the member `key` with `value` at the end of `fs`.
pub fn push_field(fs: &mut Vec<JsonField>, key: &str, value: JsonOut)
    ensures
        fields_view(final(fs)@) == fields_view(old(fs)@).push((key@, jview(value))),
{
    let ghost before = fs@;
    fs.push(JsonField { key: String::from_str(key), value });
    assert(fields_view(fs@) =~= fields_view(before).push((key@, jview(value))));
}

/// Adds `value` at the end of `a`.
pub fn push_item(a: &mut Vec<JsonOut>, value: JsonOut)
    ensures
        items_view(final(a)@) == items_view(old(a)@).push(jview(value)),
{
    let ghost before = a@;
    a.push(value);
    assert(items_view(a@) =~= items_view(before).push(jview(value)));
}

/// An object of the members `fs`.
pub fn object(fs: Vec<JsonField>) -> (o: JsonOut)
    ensures
        jview(o) == JView::Object(fields_view(fs@)),
{
    let o = JsonOut::Object(fs);
    assert(jview(o) matches JView::Object(v) && v =~= fields_view(fs@));
    o
}

/// An array of the elements `a`.
pub fn array(a: Vec<JsonOut>) -> (o: JsonOut)
    ensures
        jview(o) == JView::Array(items_view(a@)),
{
    let o = JsonOut::Array(a);
    assert(jview(o) matches JView::Array(v) && v =~= items_view(a@));
    o
}

} // verus!
