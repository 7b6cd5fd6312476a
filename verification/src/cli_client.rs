//! What the chat client says and decides on its socket: the two signals
//! it offers, the user message it sends for a line typed, and what it does
//! with an act it receives.
use vstd::prelude::*;

use crate::json_tree::{as_str, get, member, str_value, JsonNode};
use crate::text::{trim, trim_seq};
use crate::wire_out::{
    array, fields_view, items_view, jstr, jview, object, push_field, push_item, JView, JsonField, JsonOut,
};

verus! {

/// The id of the signal that presents plain text.
pub open spec fn plain_text_id() -> Seq<char> {
    "present.plain_text"@
}

/// The id of the signal that carries a user message.
pub open spec fn user_message_id() -> Seq<char> {
    "user.message"@
}

/// Which way a signal goes.
#[derive(Debug, Clone, Copy, PartialEq, Eq, Structural)]
pub enum NeuralSignalType {
    Sense,
    Act,
}

/// A signal the client offers: its direction, the endpoint, its id and
/// the schema of its payload.
#[derive(Debug)]
pub struct NeuralSignalDescriptor {
    pub kind: NeuralSignalType,
    pub endpoint_id: String,
    pub neural_signal_descriptor_id: String,
    pub payload_schema: JsonOut,
}

/// An object schema whose properties `props` are typed as given and of
/// which `required` must be present.
pub open spec fn object_schema(required: Seq<Seq<char>>, props: Seq<(Seq<char>, Seq<char>)>) -> JView {
    JView::Object(
        seq![
            ("type"@, JView::Str("object"@)),
            ("required"@, JView::Array(required.map_values(|k: Seq<char>| JView::Str(k)))),
            (
                "properties"@,
                JView::Object(
                    props.map_values(
                        |p: (Seq<char>, Seq<char>)| (p.0, JView::Object(seq![("type"@, JView::Str(p.1))])),
                    ),
                ),
            ),
        ],
    )
}

fn typed_property(fs: &mut Vec<JsonField>, name: &str, ty: &str)
    ensures
        fields_view(final(fs)@) == fields_view(old(fs)@).push(
            (name@, JView::Object(seq![("type"@, JView::Str(ty@))])),
        ),
{
    let mut t: Vec<JsonField> = Vec::new();
    push_field(&mut t, "type", jstr(ty));
    assert(fields_view(t@) =~= seq![("type"@, JView::Str(ty@))]);
    push_field(fs, name, object(t));
}

/// The signal through which text is presented to the user.
pub fn plain_text_descriptor(endpoint_name: &str) -> (d: NeuralSignalDescriptor)
    ensures
        d.kind == NeuralSignalType::Act,
        d.endpoint_id@ == endpoint_name@,
        d.neural_signal_descriptor_id@ == plain_text_id(),
        jview(d.payload_schema) == object_schema(seq!["text"@], seq![("text"@, "string"@)]),
{
    let mut required: Vec<JsonOut> = Vec::new();
    push_item(&mut required, jstr("text"));
    let mut props: Vec<JsonField> = Vec::new();
    typed_property(&mut props, "text", "string");
    let mut fs: Vec<JsonField> = Vec::new();
    push_field(&mut fs, "type", jstr("object"));
    let ghost rv = items_view(required@);
    let ghost pv = fields_view(props@);
    push_field(&mut fs, "required", array(required));
    push_field(&mut fs, "properties", object(props));
    proof {
        let req = seq!["text"@];
        let ps = seq![("text"@, "string"@)];
        assert(rv =~= req.map_values(|k: Seq<char>| JView::Str(k)));
        assert(pv =~= ps.map_values(
            |p: (Seq<char>, Seq<char>)| (p.0, JView::Object(seq![("type"@, JView::Str(p.1))])),
        ));
        assert(fields_view(fs@) =~= seq![
            ("type"@, JView::Str("object"@)),
            ("required"@, JView::Array(rv)),
            ("properties"@, JView::Object(pv)),
        ]);
    }
    NeuralSignalDescriptor {
        kind: NeuralSignalType::Act,
        endpoint_id: String::from_str(endpoint_name),
        neural_signal_descriptor_id: String::from_str("present.plain_text"),
        payload_schema: object(fs),
    }
}

/// The signal through which the user's messages are sensed.
pub fn user_message_descriptor(endpoint_name: &str) -> (d: NeuralSignalDescriptor)
    ensures
        d.kind == NeuralSignalType::Sense,
        d.endpoint_id@ == endpoint_name@,
        d.neural_signal_descriptor_id@ == user_message_id(),
        jview(d.payload_schema) == object_schema(
            seq!["kind"@, "text"@],
            seq![
                ("kind"@, "string"@),
                ("text"@, "string"@),
                ("seq_no"@, "integer"@),
                ("timestamp_ms"@, "integer"@),
            ],
        ),
{
    let mut required: Vec<JsonOut> = Vec::new();
    push_item(&mut required, jstr("kind"));
    push_item(&mut required, jstr("text"));
    let mut props: Vec<JsonField> = Vec::new();
    typed_property(&mut props, "kind", "string");
    typed_property(&mut props, "text", "string");
    typed_property(&mut props, "seq_no", "integer");
    typed_property(&mut props, "timestamp_ms", "integer");
    let mut fs: Vec<JsonField> = Vec::new();
    push_field(&mut fs, "type", jstr("object"));
    let ghost rv = items_view(required@);
    let ghost pv = fields_view(props@);
    push_field(&mut fs, "required", array(required));
    push_field(&mut fs, "properties", object(props));
    proof {
        let req = seq!["kind"@, "text"@];
        let ps = seq![
            ("kind"@, "string"@),
            ("text"@, "string"@),
            ("seq_no"@, "integer"@),
            ("timestamp_ms"@, "integer"@),
        ];
        assert(rv =~= req.map_values(|k: Seq<char>| JView::Str(k)));
        assert(pv =~= ps.map_values(
            |p: (Seq<char>, Seq<char>)| (p.0, JView::Object(seq![("type"@, JView::Str(p.1))])),
        ));
        assert(fields_view(fs@) =~= seq![
            ("type"@, JView::Str("object"@)),
            ("required"@, JView::Array(rv)),
            ("properties"@, JView::Object(pv)),
        ]);
    }
    NeuralSignalDescriptor {
        kind: NeuralSignalType::Sense,
        endpoint_id: String::from_str(endpoint_name),
        neural_signal_descriptor_id: String::from_str("user.message"),
        payload_schema: object(fs),
    }
}

/// The message of a typed line: the line trimmed; a blank line sends
/// nothing.
pub fn typed_message(line: &str) -> (r: Option<String>)
    ensures
        match r {
            Some(m) => m@ == trim_seq(line@) && m@.len() > 0,
            None => trim_seq(line@).len() == 0,
        },
{
    let m = trim(line);
    if m.as_str().unicode_len() == 0 {
        None
    } else {
        Some(m)
    }
}

/// The payload of a user message: its kind, text, number and time.
pub open spec fn user_message_payload_view(text: Seq<char>, seq_no: u64, timestamp_ms: u64) -> JView {
    JView::Object(
        seq![
            ("kind"@, JView::Str("user_message"@)),
            ("text"@, JView::Str(text)),
            ("seq_no"@, JView::Number(seq_no)),
            ("timestamp_ms"@, JView::Number(timestamp_ms)),
        ],
    )
}

/// The payload of a user message.
pub fn user_message_payload(text: &str, seq_no: u64, timestamp_ms: u64) -> (o: JsonOut)
    ensures
        jview(o) == user_message_payload_view(text@, seq_no, timestamp_ms),
{
    let mut fs: Vec<JsonField> = Vec::new();
    push_field(&mut fs, "kind", jstr("user_message"));
    push_field(&mut fs, "text", jstr(text));
    push_field(&mut fs, "seq_no", JsonOut::Number(seq_no));
    push_field(&mut fs, "timestamp_ms", JsonOut::Number(timestamp_ms));
    assert(fields_view(fs@) =~= seq![
        ("kind"@, JView::Str("user_message"@)),
        ("text"@, JView::Str(text@)),
        ("seq_no"@, JView::Number(seq_no)),
        ("timestamp_ms"@, JView::Number(timestamp_ms)),
    ]);
    object(fs)
}

/// The text an act presents: its `text`, its `output_text`, or its
/// response's `output_text`.
pub open spec fn act_text(payload: JsonNode) -> Option<Seq<char>> {
    match str_value(member(Some(payload), "text"@)) {
        Some(t) => Some(t),
        None => match str_value(member(Some(payload), "output_text"@)) {
            Some(t) => Some(t),
            None => str_value(member(member(Some(payload), "response"@), "output_text"@)),
        },
    }
}

/// The text an act presents.
pub fn extract_text_from_payload(payload: &JsonNode) -> (r: Option<&str>)
    ensures
        match r {
            Some(s) => act_text(*payload) == Some(s@),
            None => act_text(*payload) is None,
        },
{
    let p = Some(payload);
    match as_str(get(p, "text")) {
        Some(t) => {
            return Some(t);
        },
        None => {},
    }
    match as_str(get(p, "output_text")) {
        Some(t) => {
            return Some(t);
        },
        None => {},
    }
    as_str(get(get(p, "response"), "output_text"))
}

/// What the client does with an act, once acknowledged.
#[derive(Debug, PartialEq, Eq)]
pub enum ActStep {
    /// Warn that the act's signal is not one it presents.
    Unsupported(String),
    /// Print the text.
    Present(String),
    /// Stop with this error.
    Fail(String),
}

/// What to do with the act `act_id` of the signal `descriptor_id`: present
/// the text of a plain-text act, warn of any other signal, and fail on a
/// plain-text act without text.
pub fn act_step(descriptor_id: &str, act_id: &str, payload: &JsonNode) -> (r: ActStep)
    ensures
        descriptor_id@ != plain_text_id() ==> (r matches ActStep::Unsupported(m) && m@
            == "[warn] unsupported neural_signal_descriptor_id '"@ + descriptor_id@ + "' for act "@
            + act_id@),
        descriptor_id@ == plain_text_id() ==> match act_text(*payload) {
            Some(t) => r matches ActStep::Present(s) && s@ == t,
            None => r matches ActStep::Fail(m) && m@ == "act "@ + act_id@ + " missing payload text string"@,
        },
{
    if !crate::text::str_eq(descriptor_id, "present.plain_text") {
        let mut m = String::from_str("[warn] unsupported neural_signal_descriptor_id '");
        m.append(descriptor_id);
        m.append("' for act ");
        m.append(act_id);
        return ActStep::Unsupported(m);
    }
    match extract_text_from_payload(payload) {
        Some(t) => ActStep::Present(String::from_str(t)),
        None => {
            let mut m = String::from_str("act ");
            m.append(act_id);
            m.append(" missing payload text string");
            ActStep::Fail(m)
        },
    }
}

} // verus!
