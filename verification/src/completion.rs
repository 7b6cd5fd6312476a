//! The steps of completing a chat turn around the backend call: the
//! payload to send, the turn that records the exchange, the continuation
//! after executed tool calls, and the status the turn is reported with.
use vstd::prelude::*;

use crate::chat_capabilities::TurnPayload;
use crate::chat_types::{
    ChatMessage, ContentPart, FinishReason, MessageToolCall, OutputMode, ToolCallResult, TurnLimits,
    UsageStats,
};
use crate::error::{invalid_request, plain_error, GatewayError, GatewayErrorKind};
use crate::message::{from_chat_message_spec, opt_or, Message};
use crate::metadata::Metadata;
use crate::text::{decimal, decimal_seq};
use crate::thread::{is_dispatch_for, saturating_next, ThreadState};
use crate::tool::{resolve_tools, resolved_tools, ChatToolDefinition, ToolOverride};
use crate::turn::{
    lemma_append_plain_keeps_linkage, lemma_push_result_dangles, linkage_message, linkage_valid,
    LinkageProblem, Turn,
};

verus! {

/// The settings of a thread that apply to each of its turns.
#[derive(Debug)]
pub struct ThreadSettings {
    pub tools: Vec<ChatToolDefinition>,
    pub default_output_mode: OutputMode,
    pub default_limits: TurnLimits,
    pub default_turn_timeout_ms: u64,
    pub enable_thinking: bool,
}

/// What a caller gives a turn; the tool executor, if any, stays with the
/// caller.
#[derive(Debug)]
pub struct TurnInput {
    pub messages: Vec<ChatMessage>,
    pub tool_overrides: Vec<ToolOverride>,
    pub output_mode: Option<OutputMode>,
    pub limits: Option<TurnLimits>,
    pub enable_thinking: Option<bool>,
    pub metadata: Metadata,
}

/// A backend's answer to a turn.
#[derive(Debug)]
pub struct TurnResponse {
    pub output_text: String,
    pub tool_calls: Vec<ToolCallResult>,
    pub pending_tool_call_continuation: bool,
    pub usage: Option<UsageStats>,
    pub finish_reason: FinishReason,
    pub backend_metadata: Metadata,
}

/// The limits of a turn: the caller's or the thread's, with the thread's
/// turn timeout where they set none.
pub open spec fn turn_limits(settings: ThreadSettings, input: TurnInput) -> TurnLimits {
    let l = match input.limits {
        Some(l) => l,
        None => settings.default_limits,
    };
    if l.max_request_time_ms is None {
        TurnLimits { max_request_time_ms: Some(settings.default_turn_timeout_ms), ..l }
    } else {
        l
    }
}

/// The metadata of a turn: the caller's, with the chat, thread and turn
/// ids set.
pub open spec fn turn_metadata_ok(m: Metadata, input: Metadata, chat_id: Seq<char>, thread_id: Seq<char>, turn_id: u64) -> bool {
    &&& m.wf()
    &&& m.get_spec("chat_id"@) == Some(chat_id)
    &&& m.get_spec("thread_id"@) == Some(thread_id)
    &&& m.get_spec("turn_id"@) == Some(decimal_seq(turn_id as nat))
    &&& forall|k: Seq<char>|
        k != "chat_id"@ && k != "thread_id"@ && k != "turn_id"@ ==> #[trigger] m.get_spec(k)
            == input.get_spec(k)
}

/// The payload of the next turn of `state`: the history and the input
/// messages, the thread's tools after the input's overrides, and the
/// caller's settings where given, else the thread's.
pub fn prepare_turn(
    state: &ThreadState,
    settings: &ThreadSettings,
    input: &TurnInput,
    chat_id: &str,
    thread_id: &str,
) -> (r: Result<TurnPayload, GatewayError>)
    requires
        input.metadata.wf(),
    ensures
        input.messages@.len() == 0 ==> (r matches Err(e) && plain_error(
            e,
            GatewayErrorKind::InvalidRequest,
            "turn requires at least one input message"@,
        )),
        input.messages@.len() > 0 ==> (r matches Ok(p) && {
            &&& is_dispatch_for(
                state.system_prompt_spec(),
                state.turns_spec(),
                input.messages@,
                p.messages@,
            )
            &&& p.tools@ == resolved_tools(settings.tools@, input.tool_overrides@)
            &&& p.limits == turn_limits(*settings, *input)
            &&& p.output_mode == match input.output_mode {
                Some(m) => m,
                None => settings.default_output_mode,
            }
            &&& p.enable_thinking == match input.enable_thinking {
                Some(b) => b,
                None => settings.enable_thinking,
            }
            &&& turn_metadata_ok(
                p.metadata,
                input.metadata,
                chat_id@,
                thread_id@,
                state.next_turn_id_spec(),
            )
        }),
{
    if input.messages.len() == 0 {
        return Err(invalid_request("turn requires at least one input message"));
    }
    let turn_id = state.next_turn_id();
    let tools = resolve_tools(&settings.tools, &input.tool_overrides);
    let mut limits = match input.limits {
        Some(l) => l,
        None => settings.default_limits,
    };
    if limits.max_request_time_ms.is_none() {
        limits.max_request_time_ms = Some(settings.default_turn_timeout_ms);
    }
    let output_mode = match &input.output_mode {
        Some(m) => m.duplicate(),
        None => settings.default_output_mode.duplicate(),
    };
    let enable_thinking = match input.enable_thinking {
        Some(b) => b,
        None => settings.enable_thinking,
    };
    proof {
        reveal_strlit("chat_id");
        reveal_strlit("thread_id");
        reveal_strlit("turn_id");
        assert("chat_id"@.len() != "thread_id"@.len());
        assert("thread_id"@.len() != "turn_id"@.len());
        assert("chat_id"@[0] != "turn_id"@[0]);
    }
    let mut metadata = input.metadata.duplicate();
    metadata.insert(String::from_str("chat_id"), String::from_str(chat_id));
    metadata.insert(String::from_str("thread_id"), String::from_str(thread_id));
    metadata.insert(String::from_str("turn_id"), decimal(turn_id));
    let messages = state.build_dispatch_messages(&input.messages);
    Ok(TurnPayload { messages, tools, output_mode, limits, enable_thinking, metadata })
}

/// The position of the first tool-role message.
pub open spec fn first_tool_message(ms: Seq<ChatMessage>) -> Option<int>
    decreases ms.len(),
{
    if ms.len() == 0 {
        None
    } else {
        match first_tool_message(ms.drop_last()) {
            Some(k) => Some(k),
            None => if ms.last().role == crate::chat_types::ChatRole::Tool {
                Some(ms.len() - 1)
            } else {
                None
            },
        }
    }
}

proof fn lemma_first_tool_message_prefix(ms: Seq<ChatMessage>, k: int)
    requires
        0 <= k <= ms.len(),
        first_tool_message(ms.take(k)) is Some,
    ensures
        first_tool_message(ms) == first_tool_message(ms.take(k)),
    decreases ms.len(),
{
    if k == ms.len() {
        assert(ms.take(k) =~= ms);
    } else {
        assert(ms.drop_last().take(k) =~= ms.take(k));
        lemma_first_tool_message_prefix(ms.drop_last(), k);
    }
}

/// The id of the assistant message of turn `turn_id`.
pub open spec fn assistant_id(turn_id: u64) -> Seq<char> {
    "assistant-"@ + decimal_seq(turn_id as nat)
}

/// The turn that records an exchange: the input messages, each with its
/// id, then the assistant's answer. An input tool message has no call before
/// it, so it is refused as a dangling result.
#[verifier::loop_isolation(false)]
pub fn record_turn(
    turn_id: u64,
    metadata: Metadata,
    input_messages: Vec<ChatMessage>,
    message_ids: Vec<String>,
    now_ms: u64,
    output_text: String,
    assistant_tool_calls: Vec<MessageToolCall>,
) -> (r: Result<Turn, GatewayError>)
    requires
        metadata.wf(),
        message_ids@.len() == input_messages@.len(),
    ensures
        match first_tool_message(input_messages@) {
            Some(k) => r matches Err(e) && plain_error(
                e,
                GatewayErrorKind::InvalidRequest,
                linkage_message(
                    turn_id,
                    LinkageProblem::Dangling(opt_or(input_messages@[k].tool_call_id, "unknown-call"@)),
                ),
            ),
            None => r matches Ok(t) && {
                let n = input_messages@.len() as int;
                &&& t.wf()
                &&& t.id_spec() == turn_id
                &&& t.metadata_spec() == metadata
                &&& t.messages_spec().len() == n + 1
                &&& forall|i: int|
                    0 <= i < n ==> from_chat_message_spec(
                        input_messages@[i],
                        message_ids@[i]@,
                        now_ms,
                        #[trigger] t.messages_spec()[i],
                    )
                &&& t.messages_spec()[n] matches Message::Assistant(a) && a.id@ == assistant_id(
                    turn_id,
                ) && a.created_at_ms == now_ms && a.parts@ == seq![
                    ContentPart::Text { text: output_text },
                ] && a.tool_calls@ == assistant_tool_calls@
                &&& linkage_valid(t.messages_spec())
                &&& t.usage_spec() is None
                &&& t.finish_reason_spec() is None
                &&& !t.completed_spec()
            },
        },
{
    let mut turn = Turn::new(turn_id);
    turn.set_metadata(metadata);
    let ghost ins = input_messages@;
    let ghost ids = message_ids@;
    let mut rest = input_messages;
    let mut rest_ids = message_ids;
    let total = rest.len();
    let mut k: usize = 0;
    while rest.len() > 0
        invariant
            k + rest@.len() == ins.len(),
            ins.len() == total,
            ids.len() == total,
            rest@ == ins.skip(k as int),
            rest_ids@ == ids.skip(k as int),
            turn.wf(),
            turn.id_spec() == turn_id,
            turn.metadata_spec() == metadata,
            turn.messages_spec().len() == k,
            first_tool_message(ins.take(k as int)) is None,
            forall|i: int|
                0 <= i < k ==> from_chat_message_spec(
                    ins[i],
                    ids[i]@,
                    now_ms,
                    #[trigger] turn.messages_spec()[i],
                ),
            linkage_valid(turn.messages_spec()),
            turn.usage_spec() is None,
            turn.finish_reason_spec() is None,
            !turn.completed_spec(),
        decreases rest@.len(),
    {
        let m = rest.remove(0);
        let id = rest_ids.remove(0);
        assert(m == ins[k as int]);
        assert(id == ids[k as int]);
        assert(rest@ =~= ins.skip(k + 1));
        assert(rest_ids@ =~= ids.skip(k + 1));
        assert(ins.take(k + 1).drop_last() =~= ins.take(k as int));
        assert(ins.take(k + 1).last() == ins[k as int]);
        let is_tool = m.role == crate::chat_types::ChatRole::Tool;
        let mut converted = Message::from_chat_message(m, id, now_ms);
        let msg = converted.remove(0);
        let ghost before = turn.messages_spec();
        let ghost msg_copy = msg;
        assert(from_chat_message_spec(ins[k as int], ids[k as int]@, now_ms, msg_copy));
        proof {
            if is_tool {
                lemma_push_result_dangles(before, msg, 0);
            } else {
                lemma_append_plain_keeps_linkage(before, msg);
            }
        }
        match turn.append_one(msg, None) {
            Err(e) => {
                proof {
                    assert(is_tool);
                    assert(first_tool_message(ins.take(k + 1)) == Some(k as int));
                    lemma_first_tool_message_prefix(ins, k + 1);
                    assert(msg_copy matches Message::ToolCallResult(x) && x.call_id@ == opt_or(
                        ins[k as int].tool_call_id,
                        "unknown-call"@,
                    ));
                    assert(turn.messages_spec() == before.push(msg_copy));
                }
                return Err(e);
            },
            Ok(_) => {},
        }
        k = k + 1;
    }
    assert(ins.take(k as int) =~= ins);
    let mut id = String::from_str("assistant-");
    id.append(decimal(turn_id).as_str());
    let mut parts: Vec<ContentPart> = Vec::new();
    parts.push(ContentPart::Text { text: output_text });
    let assistant = Message::Assistant(
        crate::message::AssistantMessage {
            id,
            created_at_ms: now_ms,
            parts,
            tool_calls: assistant_tool_calls,
        },
    );
    let ghost before = turn.messages_spec();
    proof {
        lemma_append_plain_keeps_linkage(before, assistant);
    }
    match turn.append_one(assistant, None) {
        Err(e) => Err(e),
        Ok(_) => Ok(turn),
    }
}

/// The tool calls that the assistant message lists: none when the caller
/// executes them, else the backend's calls.
pub fn assistant_tool_calls(response: &TurnResponse, has_executor: bool) -> (r: Vec<MessageToolCall>)
    ensures
        has_executor ==> r@.len() == 0,
        !has_executor ==> r@.len() == response.tool_calls@.len() && forall|i: int|
            0 <= i < r@.len() ==> {
                let c = response.tool_calls@[i];
                let m = #[trigger] r@[i];
                m.id == c.id && m.name == c.name && m.arguments_json == c.arguments_json
            },
{
    let mut out: Vec<MessageToolCall> = Vec::new();
    if has_executor {
        return out;
    }
    let mut i: usize = 0;
    while i < response.tool_calls.len()
        invariant
            i <= response.tool_calls@.len(),
            out@.len() == i,
            forall|j: int|
                0 <= j < i ==> {
                    let c = response.tool_calls@[j];
                    let m = #[trigger] out@[j];
                    m.id == c.id && m.name == c.name && m.arguments_json == c.arguments_json
                },
        decreases response.tool_calls@.len() - i,
    {
        let c = &response.tool_calls[i];
        out.push(
            MessageToolCall {
                id: c.id.clone(),
                name: c.name.clone(),
                arguments_json: c.arguments_json.clone(),
            },
        );
        i = i + 1;
    }
    out
}

/// After the caller executed the backend's tool calls: the answer becomes
/// a pending continuation with no text and no calls; otherwise nothing is
/// pending.
pub fn settle_tool_continuation(response: &mut TurnResponse, has_executor: bool)
    ensures
        (has_executor && old(response).tool_calls@.len() > 0) ==> {
            &&& final(response).output_text@.len() == 0
            &&& final(response).tool_calls@.len() == 0
            &&& final(response).finish_reason == FinishReason::ToolCalls
            &&& final(response).pending_tool_call_continuation
        },
        !(has_executor && old(response).tool_calls@.len() > 0) ==> {
            &&& final(response).output_text == old(response).output_text
            &&& final(response).tool_calls@ == old(response).tool_calls@
            &&& final(response).finish_reason == old(response).finish_reason
            &&& !final(response).pending_tool_call_continuation
        },
        final(response).usage == old(response).usage,
        final(response).backend_metadata == old(response).backend_metadata,
{
    if has_executor && response.tool_calls.len() > 0 {
        response.output_text = String::new();
        response.tool_calls = Vec::new();
        response.finish_reason = FinishReason::ToolCalls;
        response.pending_tool_call_continuation = true;
    } else {
        response.pending_tool_call_continuation = false;
    }
}

/// The end of a turn whose backend call gave `dispatched`, where the
/// caller executes no tools. A failed call, or an exchange that cannot be
/// recorded, leaves the thread as it was and gives the error. Otherwise the
/// turn that records the input messages and the answer, finalized with the
/// answer's usage and finish reason, is committed as the thread's next
/// turn, and the answer is given back with nothing pending.
pub fn commit_after_dispatch(
    state: &mut ThreadState,
    dispatched: Result<TurnResponse, GatewayError>,
    metadata: Metadata,
    input_messages: Vec<ChatMessage>,
    message_ids: Vec<String>,
    now_ms: u64,
) -> (r: Result<TurnResponse, GatewayError>)
    requires
        metadata.wf(),
        message_ids@.len() == input_messages@.len(),
    ensures
        match dispatched {
            Err(e) => {
                &&& r == Err::<TurnResponse, GatewayError>(e)
                &&& final(state).turns_spec() == old(state).turns_spec()
                &&& final(state).next_turn_id_spec() == old(state).next_turn_id_spec()
            },
            Ok(resp) => match first_tool_message(input_messages@) {
                Some(_) => {
                    &&& r matches Err(e) && e.kind == GatewayErrorKind::InvalidRequest
                    &&& final(state).turns_spec() == old(state).turns_spec()
                    &&& final(state).next_turn_id_spec() == old(state).next_turn_id_spec()
                },
                None => {
                    let n = old(state).turns_spec().len();
                    let t = final(state).turns_spec()[n as int];
                    &&& r matches Ok(out) && out.output_text == resp.output_text && out.tool_calls@
                        == resp.tool_calls@ && out.usage == resp.usage && out.finish_reason
                        == resp.finish_reason && out.backend_metadata == resp.backend_metadata
                        && !out.pending_tool_call_continuation
                    &&& final(state).turns_spec() == old(state).turns_spec().push(t)
                    &&& t.id_spec() == old(state).next_turn_id_spec()
                    &&& t.metadata_spec() == metadata
                    &&& t.messages_spec().len() == input_messages@.len() + 1
                    &&& t.completed_spec()
                    &&& t.usage_spec() == resp.usage
                    &&& t.finish_reason_spec() == Some(resp.finish_reason)
                    &&& linkage_valid(t.messages_spec())
                    &&& final(state).next_turn_id_spec() == saturating_next(
                        old(state).next_turn_id_spec(),
                    )
                    &&& (old(state).wf() && old(state).next_turn_id_spec() < u64::MAX)
                        ==> final(state).wf()
                },
            },
        },
{
    let mut response = match dispatched {
        Err(e) => {
            return Err(e);
        },
        Ok(resp) => resp,
    };
    let turn_id = state.next_turn_id();
    let calls = assistant_tool_calls(&response, false);
    let recorded = record_turn(
        turn_id,
        metadata,
        input_messages,
        message_ids,
        now_ms,
        response.output_text.clone(),
        calls,
    );
    let mut turn = match recorded {
        Err(e) => {
            return Err(e);
        },
        Ok(t) => t,
    };
    settle_tool_continuation(&mut response, false);
    let usage = match &response.usage {
        Some(u) => Some(u.duplicate()),
        None => None,
    };
    turn.finalize(usage, response.finish_reason.duplicate());
    let ghost committed = turn;
    state.commit_turn(turn);
    proof {
        assert(final(state).turns_spec()[old(state).turns_spec().len() as int] == committed);
    }
    Ok(response)
}

/// The status a committed turn is reported with.
pub fn turn_status_label(response: &TurnResponse) -> (r: &'static str)
    ensures
        r@ == if response.pending_tool_call_continuation {
            "committed_pending_continuation"@
        } else {
            "committed"@
        },
{
    proof {
        reveal_strlit("committed_pending_continuation");
        reveal_strlit("committed");
    }
    if response.pending_tool_call_continuation {
        "committed_pending_continuation"
    } else {
        "committed"
    }
}

} // verus!
