//! How the chat adapters read the replies of OpenAI-compatible and Ollama
//! backends: whole replies become a complete response, streamed chunks
//! become the chat layer's raw events. The values read are those of the
//! gateway's own readers.
use vstd::prelude::*;

use crate::chat_types::{finish_reason_matches, parse_finish_reason, BackendIdentity, BackendRawEvent, FinishReason, ToolCallResult, ToolCallStatus, UsageStats};
use crate::error::{opt_view, GatewayError, GatewayErrorKind};
use crate::json::JsonText;
use crate::json_tree::{array_value, as_array, as_bool, as_str, as_u64, bool_value, deref, get, member, str_value, u64_value, JsonNode};
use crate::replies::{choice_views, choices_views, delta_views, message_calls, ollama_counts_fit, ollama_done_views, openai_usage_view, parse_usage, protocol_error, raw_text, ready_view, ready_views, text_views, usage_views, EventView};
use crate::text::decimal;
use crate::types::BackendDialect;

verus! {

/// A backend's whole reply to a turn.
#[derive(Debug)]
pub struct BackendCompleteResponse {
    pub backend_identity: BackendIdentity,
    pub output_text: String,
    pub tool_calls: Vec<ToolCallResult>,
    pub usage: Option<UsageStats>,
    pub finish_reason: FinishReason,
}

/// `e` says what `v` says.
pub open spec fn chat_event_is(e: BackendRawEvent, v: EventView) -> bool {
    match v {
        EventView::Text(s) => e matches BackendRawEvent::OutputTextDelta { delta } && delta@ == s,
        EventView::CallDelta(id, name, args) => e matches BackendRawEvent::ToolCallDelta {
            call_id,
            name: n,
            arguments_delta,
        } && call_id@ == id && opt_view(n) == name && arguments_delta@ == args,
        EventView::CallReady(id, name, args) => e matches BackendRawEvent::ToolCallReady { call }
            && call_is(call, EventView::CallReady(id, name, args)),
        EventView::Usage(i, o, t, raw) => e matches BackendRawEvent::Usage { usage } && usage_is(
            usage,
            EventView::Usage(i, o, t, raw),
        ),
        EventView::Completed(f) => e matches BackendRawEvent::Completed { finish_reason }
            && finish_reason_matches(f, finish_reason),
    }
}

/// The ready call `c` is the one `v` describes.
pub open spec fn call_is(c: ToolCallResult, v: EventView) -> bool {
    v matches EventView::CallReady(id, name, args) && c.id@ == id && c.name@ == name
        && c.arguments_json@ == args && c.status == ToolCallStatus::Ready
}

/// The counts `u` are those `v` describes.
pub open spec fn usage_is(u: UsageStats, v: EventView) -> bool {
    v matches EventView::Usage(i, o, t, raw) && u.input_tokens == i && u.output_tokens == o
        && u.total_tokens == t && raw_text(u.provider_usage_raw) == raw
}

/// The events `es` say, one by one, what `vs` say.
pub open spec fn chat_events_are(es: Seq<BackendRawEvent>, vs: Seq<EventView>) -> bool {
    &&& es.len() == vs.len()
    &&& forall|i: int| 0 <= i < es.len() ==> #[trigger] chat_event_is(es[i], vs[i])
}

/// `after` is `before` with events that say `vs` at its end.
pub open spec fn chat_appended(before: Seq<BackendRawEvent>, after: Seq<BackendRawEvent>, vs: Seq<EventView>) -> bool {
    &&& after.len() == before.len() + vs.len()
    &&& forall|i: int| 0 <= i < before.len() ==> after[i] == before[i]
    &&& forall|j: int| 0 <= j < vs.len() ==> #[trigger] chat_event_is(after[before.len() + j], vs[j])
}

proof fn lemma_chat_appended_twice(
    e0: Seq<BackendRawEvent>,
    e1: Seq<BackendRawEvent>,
    e2: Seq<BackendRawEvent>,
    v1: Seq<EventView>,
    v2: Seq<EventView>,
)
    requires
        chat_appended(e0, e1, v1),
        chat_appended(e1, e2, v2),
    ensures
        chat_appended(e0, e2, v1 + v2),
{
    assert forall|j: int| 0 <= j < (v1 + v2).len() implies #[trigger] chat_event_is(e2[e0.len() + j], (v1 + v2)[j]) by {
        if j < v1.len() {
            assert(e2[e0.len() + j] == e1[e0.len() + j]);
        } else {
            assert(e2[e1.len() + (j - v1.len())] == e2[e0.len() + j]);
        }
    }
}

proof fn lemma_chat_appended_to_empty(e0: Seq<BackendRawEvent>, es: Seq<BackendRawEvent>, vs: Seq<EventView>)
    requires
        e0.len() == 0,
        chat_appended(e0, es, vs),
    ensures
        chat_events_are(es, vs),
{
    assert forall|i: int| 0 <= i < es.len() implies #[trigger] chat_event_is(es[i], vs[i]) by {
        assert(es[e0.len() + i] == es[i]);
    }
}

proof fn lemma_ready_views_len(tcs: Seq<JsonNode>, n: int, default_id: Seq<char>, strings_plain: bool)
    requires
        n >= 0,
    ensures
        ready_views(tcs, n, default_id, strings_plain).len() == n,
    decreases n,
{
    if n > 0 {
        lemma_ready_views_len(tcs, n - 1, default_id, strings_plain);
    }
}

proof fn lemma_delta_views_len(tcs: Seq<JsonNode>, n: int)
    requires
        n >= 0,
    ensures
        delta_views(tcs, n).len() == n,
    decreases n,
{
    if n > 0 {
        lemma_delta_views_len(tcs, n - 1);
    }
}

/// The ready tool call `tc`, as `ready_view` describes it.
fn ready_call(tc: &JsonNode, default_id: &str, strings_plain: bool) -> (c: ToolCallResult)
    ensures
        call_is(c, ready_view(*tc, default_id@, strings_plain)),
{
    let t = Some(tc);
    let id = match as_str(get(t, "id")) {
        Some(id) => String::from_str(id),
        None => String::from_str(default_id),
    };
    let f = get(t, "function");
    let name = match as_str(get(f, "name")) {
        Some(n) => String::from_str(n),
        None => String::from_str("unknown_tool"),
    };
    let a = get(f, "arguments");
    let arguments_json = match a {
        Some(n) => {
            match as_str(a) {
                Some(text) => if strings_plain {
                    String::from_str(text)
                } else {
                    n.text.clone()
                },
                None => n.text.clone(),
            }
        },
        None => String::from_str("{}"),
    };
    ToolCallResult { id, name, arguments_json, status: ToolCallStatus::Ready }
}

/// The tool calls that a message lists, each as `ready_view` describes
/// it; none where it lists none.
pub fn tool_calls_from_message(message: Option<&JsonNode>, default_id: &str, strings_plain: bool) -> (r: Vec<
    ToolCallResult,
>)
    ensures
        r@.len() == message_calls(deref(message), default_id@, strings_plain).len(),
        forall|i: int|
            0 <= i < r@.len() ==> call_is(
                #[trigger] r@[i],
                message_calls(deref(message), default_id@, strings_plain)[i],
            ),
{
    let mut r: Vec<ToolCallResult> = Vec::new();
    let tcs = match as_array(get(message, "tool_calls")) {
        Some(a) => a,
        None => {
            return r;
        },
    };
    let mut k: usize = 0;
    while k < tcs.len()
        invariant
            k <= tcs@.len(),
            r@.len() == k,
            ready_views(tcs@, k as int, default_id@, strings_plain).len() == k,
            forall|i: int|
                0 <= i < k ==> call_is(
                    #[trigger] r@[i],
                    ready_views(tcs@, k as int, default_id@, strings_plain)[i],
                ),
        decreases tcs@.len() - k,
    {
        r.push(ready_call(&tcs[k], default_id, strings_plain));
        proof {
            let vs = ready_views(tcs@, k + 1, default_id@, strings_plain);
            assert(vs == ready_views(tcs@, k as int, default_id@, strings_plain).push(
                ready_view(tcs@[k as int], default_id@, strings_plain),
            ));
        }
        k = k + 1;
    }
    r
}

fn push_text(events: &mut Vec<BackendRawEvent>, content: Option<&str>)
    ensures
        chat_appended(
            old(events)@,
            final(events)@,
            text_views(
                match content {
                    Some(s) => Some(s@),
                    None => None,
                },
            ),
        ),
{
    match content {
        Some(s) => {
            if s.unicode_len() > 0 {
                events.push(BackendRawEvent::OutputTextDelta { delta: String::from_str(s) });
            }
        },
        None => {},
    }
}

fn push_calls(events: &mut Vec<BackendRawEvent>, message: Option<&JsonNode>, default_id: &str, strings_plain: bool)
    ensures
        chat_appended(old(events)@, final(events)@, message_calls(deref(message), default_id@, strings_plain)),
{
    let calls = tool_calls_from_message(message, default_id, strings_plain);
    let ghost vs = message_calls(deref(message), default_id@, strings_plain);
    let ghost start = events@;
    let mut calls = calls;
    let n = calls.len();
    let mut k: usize = 0;
    let ghost all = calls@;
    while k < n
        invariant
            n == all.len(),
            all.len() == vs.len(),
            k <= n,
            calls@ == all.skip(k as int),
            forall|i: int| 0 <= i < all.len() ==> call_is(#[trigger] all[i], vs[i]),
            chat_appended(start, events@, vs.take(k as int)),
        decreases n - k,
    {
        let call = calls.remove(0);
        let ghost before = events@;
        events.push(BackendRawEvent::ToolCallReady { call });
        proof {
            assert(call == all[k as int]);
            assert(calls@ =~= all.skip(k + 1));
            let vk = vs.take(k + 1);
            assert forall|j: int| 0 <= j < vk.len() implies #[trigger] chat_event_is(events@[start.len() + j], vk[j]) by {
                if j < k {
                    assert(events@[start.len() + j] == before[start.len() + j]);
                    assert(vk[j] == vs.take(k as int)[j]);
                }
            }
        }
        k = k + 1;
    }
    assert(vs.take(n as int) =~= vs);
}

/// The text of a reply's message, or nothing.
pub open spec fn output_text(m: Option<JsonNode>) -> Seq<char> {
    match str_value(member(m, "content"@)) {
        Some(s) => s,
        None => Seq::empty(),
    }
}

/// The whole reply of an OpenAI-compatible backend, from its first
/// choice: the message's text (empty where there is none) and tool calls,
/// the usage where given, and the finish reason; a reply without a first
/// choice is a protocol violation.
pub fn parse_openai_complete_response(payload: &JsonNode, backend_id: &str, model: &str) -> (r: Result<
    BackendCompleteResponse,
    GatewayError,
>)
    ensures
        match array_value(member(Some(*payload), "choices"@)) {
            Some(cs) => if cs.len() > 0 {
                let m = member(Some(cs[0]), "message"@);
                let calls = message_calls(m, "call_0"@, true);
                r matches Ok(resp) && {
                    &&& resp.backend_identity.backend_id@ == backend_id@
                    &&& resp.backend_identity.dialect == BackendDialect::OpenAiCompatible
                    &&& resp.backend_identity.model@ == model@
                    &&& resp.output_text@ == output_text(m)
                    &&& resp.tool_calls@.len() == calls.len()
                    &&& forall|i: int|
                        0 <= i < calls.len() ==> call_is(#[trigger] resp.tool_calls@[i], calls[i])
                    &&& match member(Some(*payload), "usage"@) {
                        Some(u) => resp.usage matches Some(us) && usage_is(us, openai_usage_view(u)),
                        None => resp.usage is None,
                    }
                    &&& finish_reason_matches(
                        str_value(member(Some(cs[0]), "finish_reason"@)),
                        resp.finish_reason,
                    )
                }
            } else {
                r matches Err(e) && protocol_error(e, "openai-compatible response missing choices"@, backend_id@)
            },
            None => r matches Err(e) && protocol_error(e, "openai-compatible response missing choices"@, backend_id@),
        },
{
    let p = Some(payload);
    let choice = match as_array(get(p, "choices")) {
        Some(a) => {
            if a.len() == 0 {
                return Err(
                    GatewayError::new(
                        GatewayErrorKind::ProtocolViolation,
                        "openai-compatible response missing choices",
                    ).with_retryable(false).with_backend_id(backend_id),
                );
            }
            &a[0]
        },
        None => {
            return Err(
                GatewayError::new(
                    GatewayErrorKind::ProtocolViolation,
                    "openai-compatible response missing choices",
                ).with_retryable(false).with_backend_id(backend_id),
            );
        },
    };
    let c = Some(choice);
    let m = get(c, "message");
    let output_text = match as_str(get(m, "content")) {
        Some(s) => String::from_str(s),
        None => String::new(),
    };
    let tool_calls = tool_calls_from_message(m, "call_0", true);
    let usage = match get(p, "usage") {
        Some(u) => Some(parse_usage(u)),
        None => None,
    };
    let finish_reason = parse_finish_reason(as_str(get(c, "finish_reason")));
    Ok(
        BackendCompleteResponse {
            backend_identity: BackendIdentity {
                backend_id: String::from_str(backend_id),
                dialect: BackendDialect::OpenAiCompatible,
                model: String::from_str(model),
            },
            output_text,
            tool_calls,
            usage,
            finish_reason,
        },
    )
}

/// The token counts of an Ollama reply; the total is their sum where both
/// are given.
pub fn parse_ollama_usage(payload: &JsonNode) -> (r: UsageStats)
    requires
        match (
            u64_value(member(Some(*payload), "prompt_eval_count"@)),
            u64_value(member(Some(*payload), "eval_count"@)),
        ) {
            (Some(a), Some(b)) => a + b <= u64::MAX,
            _ => true,
        },
    ensures
        usage_is(r, ollama_done_views(*payload)[0]),
{
    let p = Some(payload);
    let input = as_u64(get(p, "prompt_eval_count"));
    let output = as_u64(get(p, "eval_count"));
    UsageStats {
        input_tokens: input,
        output_tokens: output,
        total_tokens: match (input, output) {
            (Some(a), Some(b)) => Some(a + b),
            _ => None,
        },
        provider_usage_raw: Some(JsonText { text: payload.text.clone() }),
    }
}

/// The whole reply of an Ollama backend: the message's text (empty where
/// there is none) and tool calls, the usage, and a normal stop; a reply
/// that is not marked done is a protocol violation.
pub fn parse_ollama_complete_response(payload: &JsonNode, backend_id: &str, model: &str) -> (r: Result<
    BackendCompleteResponse,
    GatewayError,
>)
    requires
        ollama_counts_fit(*payload),
    ensures
        if bool_value(member(Some(*payload), "done"@)) == Some(true) {
            let m = member(Some(*payload), "message"@);
            let calls = message_calls(m, "tool_call_0"@, false);
            r matches Ok(resp) && {
                &&& resp.backend_identity.backend_id@ == backend_id@
                &&& resp.backend_identity.dialect == BackendDialect::Ollama
                &&& resp.backend_identity.model@ == model@
                &&& resp.output_text@ == output_text(m)
                &&& resp.tool_calls@.len() == calls.len()
                &&& forall|i: int|
                    0 <= i < calls.len() ==> call_is(#[trigger] resp.tool_calls@[i], calls[i])
                &&& resp.usage matches Some(us) && usage_is(us, ollama_done_views(*payload)[0])
                &&& resp.finish_reason == FinishReason::Stop
            }
        } else {
            r matches Err(e) && protocol_error(e, "ollama complete response missing done:true"@, backend_id@)
        },
{
    let p = Some(payload);
    let m = get(p, "message");
    let output_text = match as_str(get(m, "content")) {
        Some(s) => String::from_str(s),
        None => String::new(),
    };
    let tool_calls = tool_calls_from_message(m, "tool_call_0", false);
    let done = match as_bool(get(p, "done")) {
        Some(b) => b,
        None => false,
    };
    if !done {
        return Err(
            GatewayError::new(
                GatewayErrorKind::ProtocolViolation,
                "ollama complete response missing done:true",
            ).with_retryable(false).with_backend_id(backend_id),
        );
    }
    let usage = parse_ollama_usage(payload);
    Ok(
        BackendCompleteResponse {
            backend_identity: BackendIdentity {
                backend_id: String::from_str(backend_id),
                dialect: BackendDialect::Ollama,
                model: String::from_str(model),
            },
            output_text,
            tool_calls,
            usage: Some(usage),
            finish_reason: FinishReason::Stop,
        },
    )
}

/// The events of a streamed Ollama chunk: the message's text and tool
/// calls, and, for the final chunk, the usage and a normal stop.
pub fn parse_ollama_stream_delta(payload: &JsonNode) -> (r: Result<Vec<BackendRawEvent>, GatewayError>)
    requires
        ollama_counts_fit(*payload),
    ensures
        r matches Ok(es) && chat_events_are(es@, crate::replies::ollama_views(*payload)),
{
    let p = Some(payload);
    let m = get(p, "message");
    let mut events: Vec<BackendRawEvent> = Vec::new();
    let ghost e0 = events@;
    push_text(&mut events, as_str(get(m, "content")));
    let ghost e1 = events@;
    push_calls(&mut events, m, "tool_call_0", false);
    let ghost e2 = events@;
    if as_bool(get(p, "done")) == Some(true) {
        events.push(BackendRawEvent::Usage { usage: parse_ollama_usage(payload) });
        events.push(BackendRawEvent::Completed { finish_reason: FinishReason::Stop });
    }
    proof {
        let v1 = text_views(str_value(member(deref(m), "content"@)));
        let v2 = message_calls(deref(m), "tool_call_0"@, false);
        let v3 = if bool_value(member(Some(*payload), "done"@)) == Some(true) {
            ollama_done_views(*payload)
        } else {
            Seq::<EventView>::empty()
        };
        assert(chat_appended(e2, events@, v3));
        lemma_chat_appended_twice(e0, e1, e2, v1, v2);
        lemma_chat_appended_twice(e0, e2, events@, v1 + v2, v3);
        lemma_chat_appended_to_empty(e0, events@, v1 + v2 + v3);
    }
    Ok(events)
}

fn push_tool_deltas(events: &mut Vec<BackendRawEvent>, tool_calls: &Vec<JsonNode>)
    ensures
        chat_appended(old(events)@, final(events)@, delta_views(tool_calls@, tool_calls@.len() as int)),
{
    let ghost start = events@;
    let mut k: usize = 0;
    while k < tool_calls.len()
        invariant
            k <= tool_calls@.len(),
            chat_appended(start, events@, delta_views(tool_calls@, k as int)),
        decreases tool_calls@.len() - k,
    {
        let tc = Some(&tool_calls[k]);
        let call_id = match as_str(get(tc, "id")) {
            Some(id) => String::from_str(id),
            None => {
                let mut id = String::from_str("call_");
                let digits = decimal(k as u64);
                id.append(digits.as_str());
                id
            },
        };
        let f = get(tc, "function");
        let name = match as_str(get(f, "name")) {
            Some(n) => Some(String::from_str(n)),
            None => None,
        };
        let arguments_delta = match as_str(get(f, "arguments")) {
            Some(a) => String::from_str(a),
            None => String::new(),
        };
        let ghost before = events@;
        proof {
            lemma_delta_views_len(tool_calls@, k as int);
        }
        events.push(BackendRawEvent::ToolCallDelta { call_id, name, arguments_delta });
        proof {
            let vs = delta_views(tool_calls@, k + 1);
            assert forall|j: int| 0 <= j < vs.len() implies #[trigger] chat_event_is(events@[start.len() + j], vs[j]) by {
                if j < k {
                    assert(events@[start.len() + j] == before[start.len() + j]);
                }
            }
        }
        k = k + 1;
    }
}

fn push_choice(events: &mut Vec<BackendRawEvent>, choice: &JsonNode)
    ensures
        chat_appended(old(events)@, final(events)@, choice_views(*choice)),
{
    let ghost e0 = events@;
    let c = Some(choice);
    let d = get(c, "delta");
    if d.is_some() {
        push_text(events, as_str(get(d, "content")));
        let ghost e1 = events@;
        match as_array(get(d, "tool_calls")) {
            Some(a) => {
                push_tool_deltas(events, a);
            },
            None => {},
        }
        proof {
            let v1 = text_views(str_value(member(deref(d), "content"@)));
            let v2 = match array_value(member(deref(d), "tool_calls"@)) {
                Some(a) => delta_views(a, a.len() as int),
                None => Seq::<EventView>::empty(),
            };
            lemma_chat_appended_twice(e0, e1, events@, v1, v2);
        }
    }
    let ghost e2 = events@;
    let finish = as_str(get(c, "finish_reason"));
    if finish.is_some() {
        events.push(BackendRawEvent::Completed { finish_reason: parse_finish_reason(finish) });
    }
    proof {
        let vs = choice_views(*choice);
        assert forall|j: int| 0 <= j < vs.len() implies #[trigger] chat_event_is(events@[e0.len() + j], vs[j]) by {
            if e0.len() + j < e2.len() {
                assert(events@[e0.len() + j] == e2[e0.len() + j]);
            }
        }
    }
}

/// The events of a streamed OpenAI-compatible chunk: its usage, where
/// given, then the events of each choice; a chunk without a list of
/// choices is a protocol violation.
pub fn parse_openai_stream_delta(payload: &JsonNode, backend_id: &str) -> (r: Result<Vec<BackendRawEvent>, GatewayError>)
    ensures
        match array_value(member(Some(*payload), "choices"@)) {
            None => r matches Err(e) && protocol_error(
                e,
                "openai-compatible stream payload missing choices"@,
                backend_id@,
            ),
            Some(cs) => r matches Ok(es) && chat_events_are(es@, usage_views(*payload) + choices_views(cs, cs.len() as int)),
        },
{
    let p = Some(payload);
    let mut events: Vec<BackendRawEvent> = Vec::new();
    match get(p, "usage") {
        Some(u) => {
            events.push(BackendRawEvent::Usage { usage: parse_usage(u) });
        },
        None => {},
    }
    assert(chat_events_are(events@, usage_views(*payload)));
    let choices = match as_array(get(p, "choices")) {
        Some(a) => a,
        None => {
            return Err(
                GatewayError::new(
                    GatewayErrorKind::ProtocolViolation,
                    "openai-compatible stream payload missing choices",
                ).with_retryable(false).with_backend_id(backend_id),
            );
        },
    };
    let mut i: usize = 0;
    while i < choices.len()
        invariant
            i <= choices@.len(),
            chat_events_are(events@, usage_views(*payload) + choices_views(choices@, i as int)),
        decreases choices@.len() - i,
    {
        let ghost before = events@;
        push_choice(&mut events, &choices[i]);
        proof {
            let v0 = usage_views(*payload) + choices_views(choices@, i as int);
            let v1 = choice_views(choices@[i as int]);
            assert forall|k: int| 0 <= k < events@.len() implies #[trigger] chat_event_is(events@[k], (v0 + v1)[k]) by {
                if k < before.len() {
                    assert(events@[k] == before[k]);
                } else {
                    assert(events@[before.len() + (k - before.len())] == events@[k]);
                }
            }
            assert(usage_views(*payload) + choices_views(choices@, i + 1) =~= v0 + v1);
        }
        i = i + 1;
    }
    Ok(events)
}

} // verus!
