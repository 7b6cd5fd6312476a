//! How the replies of OpenAI-compatible and Ollama backends, once read as
//! JSON, become the gateway's raw events: text deltas, tool calls, usage and
//! completion.
use vstd::prelude::*;

use crate::canonical::{BackendRawEvent, CanonicalToolCall};
use crate::chat_types::{finish_reason_matches, parse_finish_reason, FinishReason, ToolCallStatus, UsageStats};
use crate::error::{opt_view, GatewayError, GatewayErrorKind};
use crate::json::JsonText;
use crate::json_tree::{
    array_value, as_array, as_bool, as_str, as_u64, bool_value, deref, get, member, str_value,
    u64_value, JsonNode,
};
use crate::text::{decimal, decimal_seq};

verus! {

/// What an event says, as plain values.
pub enum EventView {
    Text(Seq<char>),
    CallDelta(Seq<char>, Option<Seq<char>>, Seq<char>),
    CallReady(Seq<char>, Seq<char>, Seq<char>),
    Usage(Option<u64>, Option<u64>, Option<u64>, Option<Seq<char>>),
    Completed(Option<Seq<char>>),
}

/// The text of an optional JSON text.
pub open spec fn raw_text(o: Option<JsonText>) -> Option<Seq<char>> {
    match o {
        Some(t) => Some(t.text@),
        None => None,
    }
}

/// `e` says what `v` says; a completion carries the finish reason that
/// its text stands for.
pub open spec fn event_is(e: BackendRawEvent, v: EventView) -> bool {
    match v {
        EventView::Text(s) => e matches BackendRawEvent::OutputTextDelta { delta } && delta@ == s,
        EventView::CallDelta(id, name, args) => e matches BackendRawEvent::ToolCallDelta {
            call_id,
            name: n,
            arguments_delta,
        } && call_id@ == id && opt_view(n) == name && arguments_delta@ == args,
        EventView::CallReady(id, name, args) => e matches BackendRawEvent::ToolCallReady { call }
            && call.id@ == id && call.name@ == name && call.arguments_json@ == args && call.status
            == ToolCallStatus::Ready,
        EventView::Usage(i, o, t, raw) => e matches BackendRawEvent::Usage { usage } && usage.input_tokens
            == i && usage.output_tokens == o && usage.total_tokens == t && raw_text(
            usage.provider_usage_raw,
        ) == raw,
        EventView::Completed(f) => e matches BackendRawEvent::Completed { finish_reason }
            && finish_reason_matches(f, finish_reason),
    }
}

/// The events `es` say, one by one, what `vs` say.
pub open spec fn events_are(es: Seq<BackendRawEvent>, vs: Seq<EventView>) -> bool {
    &&& es.len() == vs.len()
    &&& forall|i: int| 0 <= i < es.len() ==> #[trigger] event_is(es[i], vs[i])
}

/// `after` is `before` with events that say `vs` at its end.
pub open spec fn appended(before: Seq<BackendRawEvent>, after: Seq<BackendRawEvent>, vs: Seq<EventView>) -> bool {
    &&& after.len() == before.len() + vs.len()
    &&& forall|i: int| 0 <= i < before.len() ==> after[i] == before[i]
    &&& forall|j: int| 0 <= j < vs.len() ==> #[trigger] event_is(after[before.len() + j], vs[j])
}

proof fn lemma_appended(es0: Seq<BackendRawEvent>, es1: Seq<BackendRawEvent>, es2: Seq<BackendRawEvent>, v0: Seq<EventView>, v1: Seq<EventView>)
    requires
        events_are(es0, v0),
        appended(es0, es1, v1),
        es2 == es1,
    ensures
        events_are(es2, v0 + v1),
{
    assert forall|i: int| 0 <= i < es2.len() implies #[trigger] event_is(es2[i], (v0 + v1)[i]) by {
        if i < es0.len() {
            assert(es2[i] == es0[i]);
        } else {
            assert(es2[es0.len() + (i - es0.len())] == es2[i]);
        }
    }
}

/// The text delta of a non-empty content.
pub open spec fn text_views(content: Option<Seq<char>>) -> Seq<EventView> {
    match content {
        Some(s) => if s.len() > 0 {
            seq![EventView::Text(s)]
        } else {
            Seq::empty()
        },
        None => Seq::empty(),
    }
}

/// The token counts of an OpenAI-compatible `usage` object, either naming.
pub open spec fn openai_usage_view(u: JsonNode) -> EventView {
    let input = match u64_value(member(Some(u), "prompt_tokens"@)) {
        Some(n) => Some(n),
        None => u64_value(member(Some(u), "input_tokens"@)),
    };
    let output = match u64_value(member(Some(u), "completion_tokens"@)) {
        Some(n) => Some(n),
        None => u64_value(member(Some(u), "output_tokens"@)),
    };
    EventView::Usage(input, output, u64_value(member(Some(u), "total_tokens"@)), Some(u.text@))
}

/// The token counts of an OpenAI-compatible `usage` object.
pub fn parse_usage(usage: &JsonNode) -> (r: UsageStats)
    ensures
        openai_usage_view(*usage) matches EventView::Usage(i, o, t, raw) && r.input_tokens == i
            && r.output_tokens == o && r.total_tokens == t && raw_text(r.provider_usage_raw) == raw,
{
    let u = Some(usage);
    let input_tokens = match as_u64(get(u, "prompt_tokens")) {
        Some(n) => Some(n),
        None => as_u64(get(u, "input_tokens")),
    };
    let output_tokens = match as_u64(get(u, "completion_tokens")) {
        Some(n) => Some(n),
        None => as_u64(get(u, "output_tokens")),
    };
    UsageStats {
        input_tokens,
        output_tokens,
        total_tokens: as_u64(get(u, "total_tokens")),
        provider_usage_raw: Some(JsonText { text: usage.text.clone() }),
    }
}

/// The delta of the tool call `tc`, the `k`-th of its list.
pub open spec fn delta_view(tc: JsonNode, k: int) -> EventView {
    let f = member(Some(tc), "function"@);
    EventView::CallDelta(
        match str_value(member(Some(tc), "id"@)) {
            Some(id) => id,
            None => "call_"@ + decimal_seq(k as nat),
        },
        str_value(member(f, "name"@)),
        match str_value(member(f, "arguments"@)) {
            Some(a) => a,
            None => Seq::empty(),
        },
    )
}

/// The deltas of the first `n` tool calls of `tcs`.
pub open spec fn delta_views(tcs: Seq<JsonNode>, n: int) -> Seq<EventView>
    decreases n,
{
    if n <= 0 {
        Seq::empty()
    } else {
        delta_views(tcs, n - 1).push(delta_view(tcs[n - 1], n - 1))
    }
}

proof fn lemma_delta_views_len(tcs: Seq<JsonNode>, n: int)
    requires
        n >= 0,
    ensures
        delta_views(tcs, n).len() == n,
    decreases n,
{
    if n > 0 {
        lemma_delta_views_len(tcs, n - 1);
    }
}

/// The events of one choice of a streamed chunk: the delta's text and
/// tool call deltas, then the completion where a finish reason is given.
pub open spec fn choice_views(c: JsonNode) -> Seq<EventView> {
    let d = member(Some(c), "delta"@);
    let delta_events = match d {
        Some(_) => text_views(str_value(member(d, "content"@))) + match array_value(
            member(d, "tool_calls"@),
        ) {
            Some(a) => delta_views(a, a.len() as int),
            None => Seq::empty(),
        },
        None => Seq::empty(),
    };
    delta_events + match str_value(member(Some(c), "finish_reason"@)) {
        Some(f) => seq![EventView::Completed(Some(f))],
        None => Seq::empty(),
    }
}

/// The events of the first `n` choices of `cs`.
pub open spec fn choices_views(cs: Seq<JsonNode>, n: int) -> Seq<EventView>
    decreases n,
{
    if n <= 0 {
        Seq::empty()
    } else {
        choices_views(cs, n - 1) + choice_views(cs[n - 1])
    }
}

/// The usage event, where `payload` has usage.
pub open spec fn usage_views(payload: JsonNode) -> Seq<EventView> {
    match member(Some(payload), "usage"@) {
        Some(u) => seq![openai_usage_view(u)],
        None => Seq::empty(),
    }
}

/// A protocol violation by the backend `backend_id`, not retryable.
pub open spec fn protocol_error(err: GatewayError, message: Seq<char>, backend_id: Seq<char>) -> bool {
    &&& err.kind == GatewayErrorKind::ProtocolViolation
    &&& err.message@ == message
    &&& !err.retryable
    &&& opt_view(err.backend_id) == Some(backend_id)
    &&& err.provider_code is None
    &&& err.provider_http_status is None
}

fn protocol_violation(message: &str, backend_id: &str) -> (err: GatewayError)
    ensures
        protocol_error(err, message@, backend_id@),
{
    GatewayError::new(GatewayErrorKind::ProtocolViolation, message).with_retryable(false).with_backend_id(
        backend_id,
    )
}

fn push_text(events: &mut Vec<BackendRawEvent>, content: Option<&str>)
    ensures
        appended(
            old(events)@,
            final(events)@,
            text_views(
                match content {
                    Some(s) => Some(s@),
                    None => None,
                },
            ),
        ),
{
    match content {
        Some(s) => {
            if s.unicode_len() > 0 {
                events.push(BackendRawEvent::OutputTextDelta { delta: String::from_str(s) });
            }
        },
        None => {},
    }
}

fn push_tool_deltas(events: &mut Vec<BackendRawEvent>, tool_calls: &Vec<JsonNode>)
    ensures
        appended(old(events)@, final(events)@, delta_views(tool_calls@, tool_calls@.len() as int)),
{
    let ghost start = events@;
    let mut k: usize = 0;
    while k < tool_calls.len()
        invariant
            k <= tool_calls@.len(),
            appended(start, events@, delta_views(tool_calls@, k as int)),
        decreases tool_calls@.len() - k,
    {
        let tc = Some(&tool_calls[k]);
        let call_id = match as_str(get(tc, "id")) {
            Some(id) => String::from_str(id),
            None => {
                let mut id = String::from_str("call_");
                let digits = decimal(k as u64);
                id.append(digits.as_str());
                id
            },
        };
        let f = get(tc, "function");
        let name = match as_str(get(f, "name")) {
            Some(n) => Some(String::from_str(n)),
            None => None,
        };
        let arguments_delta = match as_str(get(f, "arguments")) {
            Some(a) => String::from_str(a),
            None => String::new(),
        };
        let ghost before = events@;
        proof {
            lemma_delta_views_len(tool_calls@, k as int);
        }
        events.push(BackendRawEvent::ToolCallDelta { call_id, name, arguments_delta });
        proof {
            let vs = delta_views(tool_calls@, k + 1);
            assert(vs == delta_views(tool_calls@, k as int).push(delta_view(tool_calls@[k as int], k as int)));
            assert forall|j: int| 0 <= j < vs.len() implies #[trigger] event_is(events@[start.len() + j], vs[j]) by {
                if j < k {
                    assert(events@[start.len() + j] == before[start.len() + j]);
                }
            }
        }
        k = k + 1;
    }
}

fn push_choice(events: &mut Vec<BackendRawEvent>, choice: &JsonNode)
    ensures
        appended(old(events)@, final(events)@, choice_views(*choice)),
{
    let ghost e0 = events@;
    let c = Some(choice);
    let d = get(c, "delta");
    if d.is_some() {
        push_text(events, as_str(get(d, "content")));
        let ghost e1 = events@;
        match as_array(get(d, "tool_calls")) {
            Some(a) => {
                push_tool_deltas(events, a);
            },
            None => {},
        }
        proof {
            let v1 = text_views(str_value(member(deref(d), "content"@)));
            let v2 = match array_value(member(deref(d), "tool_calls"@)) {
                Some(a) => delta_views(a, a.len() as int),
                None => Seq::<EventView>::empty(),
            };
            assert forall|j: int| 0 <= j < (v1 + v2).len() implies #[trigger] event_is(events@[e0.len() + j], (v1 + v2)[j]) by {
                if j < v1.len() {
                    assert(events@[e0.len() + j] == e1[e0.len() + j]);
                } else {
                    assert(events@[e1.len() + (j - v1.len())] == events@[e0.len() + j]);
                }
            }
        }
    }
    let ghost e2 = events@;
    let finish = as_str(get(c, "finish_reason"));
    if finish.is_some() {
        events.push(BackendRawEvent::Completed { finish_reason: parse_finish_reason(finish) });
    }
    proof {
        let vd = choice_views(*choice).take((e2.len() - e0.len()) as int);
        let vs = choice_views(*choice);
        assert forall|j: int| 0 <= j < vs.len() implies #[trigger] event_is(events@[e0.len() + j], vs[j]) by {
            if e0.len() + j < e2.len() {
                assert(events@[e0.len() + j] == e2[e0.len() + j]);
            }
        }
    }
}

/// The events of a streamed OpenAI-compatible chunk: its usage, where
/// given, then the events of each choice; a chunk without a list of
/// choices is a protocol violation.
pub fn parse_stream_payload(payload: &JsonNode, backend_id: &str) -> (r: Result<Vec<BackendRawEvent>, GatewayError>)
    ensures
        match array_value(member(Some(*payload), "choices"@)) {
            None => r matches Err(e) && protocol_error(
                e,
                "openai-compatible stream payload missing choices"@,
                backend_id@,
            ),
            Some(cs) => r matches Ok(es) && events_are(es@, usage_views(*payload) + choices_views(cs, cs.len() as int)),
        },
{
    let p = Some(payload);
    let mut events: Vec<BackendRawEvent> = Vec::new();
    let usage = get(p, "usage");
    match usage {
        Some(u) => {
            events.push(BackendRawEvent::Usage { usage: parse_usage(u) });
        },
        None => {},
    }
    assert(events_are(events@, usage_views(*payload)));
    let choices = match as_array(get(p, "choices")) {
        Some(a) => a,
        None => {
            return Err(protocol_violation("openai-compatible stream payload missing choices", backend_id));
        },
    };
    let ghost e0 = events@;
    let mut i: usize = 0;
    while i < choices.len()
        invariant
            i <= choices@.len(),
            events_are(events@, usage_views(*payload) + choices_views(choices@, i as int)),
        decreases choices@.len() - i,
    {
        let ghost before = events@;
        push_choice(&mut events, &choices[i]);
        proof {
            lemma_appended(
                before,
                events@,
                events@,
                usage_views(*payload) + choices_views(choices@, i as int),
                choice_views(choices@[i as int]),
            );
            assert(usage_views(*payload) + choices_views(choices@, i + 1) =~= usage_views(*payload)
                + choices_views(choices@, i as int) + choice_views(choices@[i as int]));
        }
        i = i + 1;
    }
    Ok(events)
}

/// The ready tool call `tc`: its id (else `default_id`), its function's
/// name (else "unknown_tool") and arguments, where they are a string the
/// string itself when `strings_plain`, else their JSON text ("{}" where
/// there are none).
pub open spec fn ready_view(tc: JsonNode, default_id: Seq<char>, strings_plain: bool) -> EventView {
    let f = member(Some(tc), "function"@);
    let a = member(f, "arguments"@);
    EventView::CallReady(
        match str_value(member(Some(tc), "id"@)) {
            Some(id) => id,
            None => default_id,
        },
        match str_value(member(f, "name"@)) {
            Some(n) => n,
            None => "unknown_tool"@,
        },
        match a {
            Some(n) => if strings_plain && str_value(a) is Some {
                str_value(a)->0
            } else {
                n.text@
            },
            None => "{}"@,
        },
    )
}

/// The first `n` ready tool calls of `tcs`.
pub open spec fn ready_views(tcs: Seq<JsonNode>, n: int, default_id: Seq<char>, strings_plain: bool) -> Seq<
    EventView,
>
    decreases n,
{
    if n <= 0 {
        Seq::empty()
    } else {
        ready_views(tcs, n - 1, default_id, strings_plain).push(
            ready_view(tcs[n - 1], default_id, strings_plain),
        )
    }
}

proof fn lemma_ready_views_len(tcs: Seq<JsonNode>, n: int, default_id: Seq<char>, strings_plain: bool)
    requires
        n >= 0,
    ensures
        ready_views(tcs, n, default_id, strings_plain).len() == n,
    decreases n,
{
    if n > 0 {
        lemma_ready_views_len(tcs, n - 1, default_id, strings_plain);
    }
}

/// The ready tool calls of a message, where it lists them.
pub open spec fn message_calls(m: Option<JsonNode>, default_id: Seq<char>, strings_plain: bool) -> Seq<EventView> {
    match array_value(member(m, "tool_calls"@)) {
        Some(a) => ready_views(a, a.len() as int, default_id, strings_plain),
        None => Seq::empty(),
    }
}

fn push_tool_ready(
    events: &mut Vec<BackendRawEvent>,
    tool_calls: &Vec<JsonNode>,
    default_id: &str,
    strings_plain: bool,
)
    ensures
        appended(
            old(events)@,
            final(events)@,
            ready_views(tool_calls@, tool_calls@.len() as int, default_id@, strings_plain),
        ),
{
    let ghost start = events@;
    let mut k: usize = 0;
    while k < tool_calls.len()
        invariant
            k <= tool_calls@.len(),
            appended(start, events@, ready_views(tool_calls@, k as int, default_id@, strings_plain)),
        decreases tool_calls@.len() - k,
    {
        let tc = Some(&tool_calls[k]);
        let id = match as_str(get(tc, "id")) {
            Some(id) => String::from_str(id),
            None => String::from_str(default_id),
        };
        let f = get(tc, "function");
        let name = match as_str(get(f, "name")) {
            Some(n) => String::from_str(n),
            None => String::from_str("unknown_tool"),
        };
        let a = get(f, "arguments");
        let arguments_json = match a {
            Some(n) => {
                match as_str(a) {
                    Some(text) => if strings_plain {
                        String::from_str(text)
                    } else {
                        n.text.clone()
                    },
                    None => n.text.clone(),
                }
            },
            None => String::from_str("{}"),
        };
        let ghost before = events@;
        proof {
            lemma_ready_views_len(tool_calls@, k as int, default_id@, strings_plain);
        }
        events.push(
            BackendRawEvent::ToolCallReady {
                call: CanonicalToolCall { id, name, arguments_json, status: ToolCallStatus::Ready },
            },
        );
        proof {
            let vs = ready_views(tool_calls@, k + 1, default_id@, strings_plain);
            assert forall|j: int| 0 <= j < vs.len() implies #[trigger] event_is(events@[start.len() + j], vs[j]) by {
                if j < k {
                    assert(events@[start.len() + j] == before[start.len() + j]);
                }
            }
        }
        k = k + 1;
    }
}

fn push_message_calls(
    events: &mut Vec<BackendRawEvent>,
    m: Option<&JsonNode>,
    default_id: &str,
    strings_plain: bool,
)
    ensures
        appended(old(events)@, final(events)@, message_calls(deref(m), default_id@, strings_plain)),
{
    match as_array(get(m, "tool_calls")) {
        Some(a) => {
            push_tool_ready(events, a, default_id, strings_plain);
        },
        None => {},
    }
}

proof fn lemma_appended_to_empty(e0: Seq<BackendRawEvent>, es: Seq<BackendRawEvent>, vs: Seq<EventView>)
    requires
        e0.len() == 0,
        appended(e0, es, vs),
    ensures
        events_are(es, vs),
{
    assert forall|i: int| 0 <= i < es.len() implies #[trigger] event_is(es[i], vs[i]) by {
        assert(es[e0.len() + i] == es[i]);
    }
}

proof fn lemma_appended_twice(
    e0: Seq<BackendRawEvent>,
    e1: Seq<BackendRawEvent>,
    e2: Seq<BackendRawEvent>,
    v1: Seq<EventView>,
    v2: Seq<EventView>,
)
    requires
        appended(e0, e1, v1),
        appended(e1, e2, v2),
    ensures
        appended(e0, e2, v1 + v2),
{
    assert forall|j: int| 0 <= j < (v1 + v2).len() implies #[trigger] event_is(e2[e0.len() + j], (v1 + v2)[j]) by {
        if j < v1.len() {
            assert(e2[e0.len() + j] == e1[e0.len() + j]);
        } else {
            assert(e2[e1.len() + (j - v1.len())] == e2[e0.len() + j]);
        }
    }
}

/// The events of a whole OpenAI-compatible reply, from its first choice:
/// the message's text and tool calls, the usage where given, and the
/// completion.
pub open spec fn non_stream_views(payload: JsonNode, choice: JsonNode) -> Seq<EventView> {
    let m = member(Some(choice), "message"@);
    text_views(str_value(member(m, "content"@))) + message_calls(m, "call_0"@, true) + usage_views(
        payload,
    ) + seq![EventView::Completed(str_value(member(Some(choice), "finish_reason"@)))]
}

/// The events of a whole OpenAI-compatible reply; one without a first
/// choice is a protocol violation.
pub fn parse_non_stream_payload(payload: &JsonNode, backend_id: &str) -> (r: Result<Vec<BackendRawEvent>, GatewayError>)
    ensures
        match array_value(member(Some(*payload), "choices"@)) {
            Some(cs) => if cs.len() > 0 {
                r matches Ok(es) && events_are(es@, non_stream_views(*payload, cs[0]))
            } else {
                r matches Err(e) && protocol_error(e, "openai-compatible response missing choices"@, backend_id@)
            },
            None => r matches Err(e) && protocol_error(e, "openai-compatible response missing choices"@, backend_id@),
        },
{
    let p = Some(payload);
    let choice = match as_array(get(p, "choices")) {
        Some(a) => {
            if a.len() == 0 {
                return Err(protocol_violation("openai-compatible response missing choices", backend_id));
            }
            &a[0]
        },
        None => {
            return Err(protocol_violation("openai-compatible response missing choices", backend_id));
        },
    };
    let c = Some(choice);
    let m = get(c, "message");
    let mut events: Vec<BackendRawEvent> = Vec::new();
    let ghost e0 = events@;
    push_text(&mut events, as_str(get(m, "content")));
    let ghost e1 = events@;
    push_message_calls(&mut events, m, "call_0", true);
    let ghost e2 = events@;
    match get(p, "usage") {
        Some(u) => {
            events.push(BackendRawEvent::Usage { usage: parse_usage(u) });
        },
        None => {},
    }
    let ghost e3 = events@;
    let finish = as_str(get(c, "finish_reason"));
    events.push(BackendRawEvent::Completed { finish_reason: parse_finish_reason(finish) });
    proof {
        let v1 = text_views(str_value(member(deref(m), "content"@)));
        let v2 = message_calls(deref(m), "call_0"@, true);
        let v3 = usage_views(*payload);
        let v4 = seq![EventView::Completed(str_value(member(Some(*choice), "finish_reason"@)))];
        assert(appended(e2, e3, v3));
        assert(appended(e3, events@, v4));
        lemma_appended_twice(e0, e1, e2, v1, v2);
        lemma_appended_twice(e0, e2, e3, v1 + v2, v3);
        lemma_appended_twice(e0, e3, events@, v1 + v2 + v3, v4);
        lemma_appended_to_empty(e0, events@, v1 + v2 + v3 + v4);
    }
    Ok(events)
}

/// The token counts of a final Ollama chunk; the total is their sum where
/// both are given.
pub open spec fn ollama_done_views(payload: JsonNode) -> Seq<EventView> {
    let pe = u64_value(member(Some(payload), "prompt_eval_count"@));
    let ev = u64_value(member(Some(payload), "eval_count"@));
    let total = match (pe, ev) {
        (Some(a), Some(b)) => Some((a + b) as u64),
        _ => None,
    };
    seq![EventView::Usage(pe, ev, total, Some(payload.text@)), EventView::Completed(Some("stop"@))]
}

/// The counts of a final Ollama chunk add up within a `u64`.
pub open spec fn ollama_counts_fit(payload: JsonNode) -> bool {
    bool_value(member(Some(payload), "done"@)) == Some(true) ==> match (
        u64_value(member(Some(payload), "prompt_eval_count"@)),
        u64_value(member(Some(payload), "eval_count"@)),
    ) {
        (Some(a), Some(b)) => a + b <= u64::MAX,
        _ => true,
    }
}

/// The events of an Ollama chunk: the message's text and tool calls, and,
/// for the final chunk, the usage and a normal stop.
pub open spec fn ollama_views(payload: JsonNode) -> Seq<EventView> {
    let m = member(Some(payload), "message"@);
    text_views(str_value(member(m, "content"@))) + message_calls(m, "tool_call_0"@, false) + if bool_value(
        member(Some(payload), "done"@),
    ) == Some(true) {
        ollama_done_views(payload)
    } else {
        Seq::empty()
    }
}

/// The events of an Ollama chunk.
pub fn parse_ollama_payload(payload: &JsonNode) -> (r: Result<Vec<BackendRawEvent>, GatewayError>)
    requires
        ollama_counts_fit(*payload),
    ensures
        r matches Ok(es) && events_are(es@, ollama_views(*payload)),
{
    let p = Some(payload);
    let m = get(p, "message");
    let mut events: Vec<BackendRawEvent> = Vec::new();
    let ghost e0 = events@;
    push_text(&mut events, as_str(get(m, "content")));
    let ghost e1 = events@;
    push_message_calls(&mut events, m, "tool_call_0", false);
    let ghost e2 = events@;
    if as_bool(get(p, "done")) == Some(true) {
        let input_tokens = as_u64(get(p, "prompt_eval_count"));
        let output_tokens = as_u64(get(p, "eval_count"));
        let total_tokens = match (input_tokens, output_tokens) {
            (Some(a), Some(b)) => Some(a + b),
            _ => None,
        };
        let usage = UsageStats {
            input_tokens,
            output_tokens,
            total_tokens,
            provider_usage_raw: Some(JsonText { text: payload.text.clone() }),
        };
        events.push(BackendRawEvent::Usage { usage });
        events.push(BackendRawEvent::Completed { finish_reason: FinishReason::Stop });
    }
    proof {
        let v1 = text_views(str_value(member(deref(m), "content"@)));
        let v2 = message_calls(deref(m), "tool_call_0"@, false);
        let v3 = if bool_value(member(Some(*payload), "done"@)) == Some(true) {
            ollama_done_views(*payload)
        } else {
            Seq::<EventView>::empty()
        };
        assert(appended(e2, events@, v3));
        lemma_appended_twice(e0, e1, e2, v1, v2);
        lemma_appended_twice(e0, e2, events@, v1 + v2, v3);
        lemma_appended_to_empty(e0, events@, v1 + v2 + v3);
    }
    Ok(events)
}

} // verus!
