//! The GitHub Copilot adapter's own rules: what it can do, when the
//! Copilot process reports itself ready, the prompt it sends, the request
//! for a completion, where the completion's text is found, and how a
//! stream of events becomes one whole response.
use vstd::prelude::*;

use crate::chat_capabilities::TurnPayload;
use crate::chat_replies::BackendCompleteResponse;
use crate::chat_types::{BackendIdentity, BackendRawEvent, ChatMessage, ContentPart};
use crate::error::{GatewayError, GatewayErrorKind};
use crate::json_tree::{array_value, as_array, as_bool, as_str, bool_value, get, member, str_value, JsonNode};
use crate::replies::protocol_error;
use crate::types::{BackendCapabilities, BackendDialect};
use crate::wire_out::{fields_view, jstr, jview, object, push_field, JView, JsonField, JsonOut};

verus! {

/// The adapter for the GitHub Copilot process.
#[derive(Debug, Clone, Copy, PartialEq, Eq, Structural)]
pub struct GitHubCopilotAdapter;

impl GitHubCopilotAdapter {
    /// The dialect it speaks.
    pub fn dialect(&self) -> (d: BackendDialect)
        ensures
            d == BackendDialect::GitHubCopilotSdk,
    {
        BackendDialect::GitHubCopilotSdk
    }

    /// What it can do: stream text, nothing more.
    pub fn static_capabilities(&self) -> (c: BackendCapabilities)
        ensures
            c.streaming,
            !c.tool_calls,
            !c.parallel_tool_calls,
            !c.json_mode,
            !c.json_schema_mode,
            !c.vision,
            !c.resumable_streaming,
    {
        BackendCapabilities {
            streaming: true,
            tool_calls: false,
            parallel_tool_calls: false,
            json_mode: false,
            json_schema_mode: false,
            vision: false,
            resumable_streaming: false,
        }
    }
}

/// The Copilot process reports itself ready: by its `ready` flag where it
/// gives one, else by a `status` of "ok", "ready", "logged_in" or
/// "authorized"; a report with neither counts as ready.
pub open spec fn ready_status(value: JsonNode) -> bool {
    match bool_value(member(Some(value), "ready"@)) {
        Some(b) => b,
        None => match str_value(member(Some(value), "status"@)) {
            Some(s) => s == "ok"@ || s == "ready"@ || s == "logged_in"@ || s == "authorized"@,
            None => true,
        },
    }
}

/// Whether the Copilot process reports itself ready.
pub fn status_is_ready(value: &JsonNode) -> (r: bool)
    ensures
        r == ready_status(*value),
{
    let v = Some(value);
    match as_bool(get(v, "ready")) {
        Some(b) => b,
        None => match as_str(get(v, "status")) {
            Some(s) => crate::text::str_eq(s, "ok") || crate::text::str_eq(s, "ready")
                || crate::text::str_eq(s, "logged_in") || crate::text::str_eq(s, "authorized"),
            None => true,
        },
    }
}

/// The texts of the text parts of `ms`, in order.
pub open spec fn text_parts(ms: Seq<ChatMessage>) -> Seq<Seq<char>>
    decreases ms.len(),
{
    if ms.len() == 0 {
        Seq::empty()
    } else {
        text_parts(ms.drop_last()) + part_texts(ms.last().parts@)
    }
}

/// The texts of the text parts of `ps`, in order.
pub open spec fn part_texts(ps: Seq<ContentPart>) -> Seq<Seq<char>>
    decreases ps.len(),
{
    if ps.len() == 0 {
        Seq::empty()
    } else {
        part_texts(ps.drop_last()) + match ps.last() {
            ContentPart::Text { text } => seq![text@],
            _ => Seq::empty(),
        }
    }
}

/// `ts` joined with a line break between each two.
pub open spec fn joined_lines(ts: Seq<Seq<char>>) -> Seq<char>
    decreases ts.len(),
{
    if ts.len() == 0 {
        Seq::empty()
    } else if ts.len() == 1 {
        ts[0]
    } else {
        joined_lines(ts.drop_last()) + "\n"@ + ts.last()
    }
}

fn append_line(out: &mut String, first: &mut bool, text: &str, Ghost(ts): Ghost<Seq<Seq<char>>>)
    requires
        old(out)@ == joined_lines(ts),
        *old(first) == (ts.len() == 0),
    ensures
        final(out)@ == joined_lines(ts.push(text@)),
        !*final(first),
{
    if !*first {
        out.append("\n");
    }
    out.append(text);
    *first = false;
    proof {
        assert(ts.push(text@).drop_last() =~= ts);
        if ts.len() == 0 {
            assert(ts.push(text@).len() == 1);
        }
    }
}

/// The prompt sent to Copilot: the text parts of all messages, one per
/// line.
pub fn extract_text_from_payload(payload: &TurnPayload) -> (r: String)
    ensures
        r@ == joined_lines(text_parts(payload.messages@)),
{
    let mut out = String::new();
    let mut first = true;
    let ghost ms = payload.messages@;
    let mut i: usize = 0;
    while i < payload.messages.len()
        invariant
            ms == payload.messages@,
            i <= ms.len(),
            out@ == joined_lines(text_parts(ms.take(i as int))),
            first == (text_parts(ms.take(i as int)).len() == 0),
        decreases ms.len() - i,
    {
        let parts = &payload.messages[i].parts;
        let ghost before = text_parts(ms.take(i as int));
        let mut k: usize = 0;
        while k < parts.len()
            invariant
                ms == payload.messages@,
                i < ms.len(),
                *parts == ms[i as int].parts,
                k <= parts@.len(),
                out@ == joined_lines(before + part_texts(parts@.take(k as int))),
                first == ((before + part_texts(parts@.take(k as int))).len() == 0),
            decreases parts@.len() - k,
        {
            proof {
                assert(parts@.take(k + 1).drop_last() =~= parts@.take(k as int));
            }
            match &parts[k] {
                ContentPart::Text { text } => {
                    let ghost ts = before + part_texts(parts@.take(k as int));
                    append_line(&mut out, &mut first, text.as_str(), Ghost(ts));
                    assert(before + part_texts(parts@.take(k + 1)) =~= ts.push(text@));
                },
                _ => {
                    assert(before + part_texts(parts@.take(k + 1)) =~= before + part_texts(parts@.take(k as int)));
                },
            }
            k = k + 1;
        }
        proof {
            assert(parts@.take(parts@.len() as int) =~= parts@);
            assert(ms.take(i + 1).drop_last() =~= ms.take(i as int));
        }
        i = i + 1;
    }
    assert(ms.take(ms.len() as int) =~= ms);
    out
}

/// The request for a completion of `text`, as if typed in a synthetic
/// document, with the cursor after it.
pub open spec fn panel_params_view(text: &str) -> JView {
    JView::Object(
        seq![
            ("textDocument"@, JView::Object(seq![("uri"@, JView::Str("file:///beluna/copilot-synthetic.txt"@))])),
            (
                "position"@,
                JView::Object(seq![("line"@, JView::Number(0)), ("character"@, JView::Number(text.len() as u64))]),
            ),
            ("context"@, JView::Object(seq![("prefix"@, JView::Str(text@))])),
        ],
    )
}

/// The request for a completion of `text`.
pub fn build_panel_completion_params(text: &str) -> (o: JsonOut)
    ensures
        jview(o) == panel_params_view(text),
{
    let mut doc: Vec<JsonField> = Vec::new();
    push_field(&mut doc, "uri", jstr("file:///beluna/copilot-synthetic.txt"));
    let ghost dv = fields_view(doc@);
    assert(dv =~= seq![("uri"@, JView::Str("file:///beluna/copilot-synthetic.txt"@))]);
    let mut pos: Vec<JsonField> = Vec::new();
    push_field(&mut pos, "line", JsonOut::Number(0));
    let len = text.len();
    push_field(&mut pos, "character", JsonOut::Number(len as u64));
    let ghost pv = fields_view(pos@);
    assert(pv =~= seq![("line"@, JView::Number(0)), ("character"@, JView::Number(text.len() as u64))]);
    let mut ctx: Vec<JsonField> = Vec::new();
    push_field(&mut ctx, "prefix", jstr(text));
    let ghost cv = fields_view(ctx@);
    assert(cv =~= seq![("prefix"@, JView::Str(text@))]);
    let mut fs: Vec<JsonField> = Vec::new();
    push_field(&mut fs, "textDocument", object(doc));
    push_field(&mut fs, "position", object(pos));
    push_field(&mut fs, "context", object(ctx));
    assert(fields_view(fs@) =~= seq![
        ("textDocument"@, JView::Object(dv)),
        ("position"@, JView::Object(pv)),
        ("context"@, JView::Object(cv)),
    ]);
    object(fs)
}

/// The text of a completion: its `text`, else the `insertText` or the
/// `text` of its first item.
pub open spec fn completion_text(value: JsonNode) -> Option<Seq<char>> {
    match str_value(member(Some(value), "text"@)) {
        Some(t) => Some(t),
        None => match array_value(member(Some(value), "items"@)) {
            Some(items) => if items.len() > 0 {
                match str_value(member(Some(items[0]), "insertText"@)) {
                    Some(t) => Some(t),
                    None => str_value(member(Some(items[0]), "text"@)),
                }
            } else {
                None
            },
            None => None,
        },
    }
}

/// The text of a completion.
pub fn extract_completion_text(value: &JsonNode) -> (r: Option<&str>)
    ensures
        match r {
            Some(s) => completion_text(*value) == Some(s@),
            None => completion_text(*value) is None,
        },
{
    let v = Some(value);
    match as_str(get(v, "text")) {
        Some(t) => {
            return Some(t);
        },
        None => {},
    }
    match as_array(get(v, "items")) {
        Some(items) => {
            if items.len() > 0 {
                let first = Some(&items[0]);
                match as_str(get(first, "insertText")) {
                    Some(t) => {
                        return Some(t);
                    },
                    None => {},
                }
                match as_str(get(first, "text")) {
                    Some(t) => {
                        return Some(t);
                    },
                    None => {},
                }
            }
        },
        None => {},
    }
    None
}

/// The position of the first event of `es` from `i` on that ends the
/// stream: a completion or a failure.
pub open spec fn first_end_from(es: Seq<BackendRawEvent>, i: int) -> Option<int>
    decreases es.len() - i,
{
    if i < 0 || i >= es.len() {
        None
    } else if es[i] is Completed || es[i] is Failed {
        Some(i)
    } else {
        first_end_from(es, i + 1)
    }
}

/// The text deltas of the first `n` events of `es`, joined.
pub open spec fn streamed_text(es: Seq<BackendRawEvent>, n: int) -> Seq<char>
    decreases n,
{
    if n <= 0 {
        Seq::empty()
    } else {
        streamed_text(es, n - 1) + match es[n - 1] {
            BackendRawEvent::OutputTextDelta { delta } => delta@,
            _ => Seq::empty(),
        }
    }
}

/// The whole response gathered from the events of a Copilot stream, read
/// up to the first completion or failure: the text of its deltas and the
/// completion's finish reason. A failure is the result; a stream that ends
/// without completing is a protocol violation.
pub fn collect_completion(events: Vec<BackendRawEvent>, backend_id: &str, model: &str) -> (r: Result<
    BackendCompleteResponse,
    GatewayError,
>)
    ensures
        match first_end_from(events@, 0) {
            Some(i) => match events@[i] {
                BackendRawEvent::Completed { finish_reason } => r matches Ok(resp) && {
                    &&& resp.backend_identity.backend_id@ == backend_id@
                    &&& resp.backend_identity.dialect == BackendDialect::GitHubCopilotSdk
                    &&& resp.backend_identity.model@ == model@
                    &&& resp.output_text@ == streamed_text(events@, i)
                    &&& resp.tool_calls@.len() == 0
                    &&& resp.usage is None
                    &&& resp.finish_reason == finish_reason
                },
                BackendRawEvent::Failed { error } => r == Err::<BackendCompleteResponse, GatewayError>(
                    error,
                ),
                _ => false,
            },
            None => r matches Err(e) && protocol_error(
                e,
                "copilot once response missing terminal finish reason"@,
                backend_id@,
            ),
        },
{
    let ghost es = events@;
    let mut rest = events;
    let mut output_text = String::new();
    let n = rest.len();
    let mut i: usize = 0;
    while i < n
        invariant
            es == events@,
            n == es.len(),
            i <= n,
            rest@ == es.skip(i as int),
            output_text@ == streamed_text(es, i as int),
            first_end_from(es, 0) == first_end_from(es, i as int),
        decreases n - i,
    {
        let e = rest.remove(0);
        assert(e == es[i as int]);
        assert(rest@ =~= es.skip(i + 1));
        match e {
            BackendRawEvent::OutputTextDelta { delta } => {
                output_text.append(delta.as_str());
            },
            BackendRawEvent::Completed { finish_reason } => {
                assert(first_end_from(es, i as int) == Some(i as int));
                return Ok(
                    BackendCompleteResponse {
                        backend_identity: BackendIdentity {
                            backend_id: String::from_str(backend_id),
                            dialect: BackendDialect::GitHubCopilotSdk,
                            model: String::from_str(model),
                        },
                        output_text,
                        tool_calls: Vec::new(),
                        usage: None,
                        finish_reason,
                    },
                );
            },
            BackendRawEvent::Failed { error } => {
                assert(first_end_from(es, i as int) == Some(i as int));
                return Err(error);
            },
            _ => {},
        }
        i = i + 1;
    }
    Err(
        GatewayError::new(
            GatewayErrorKind::ProtocolViolation,
            "copilot once response missing terminal finish reason",
        ).with_retryable(false).with_backend_id(backend_id),
    )
}

} // verus!
