//! A turn of a thread held in the thread store, around the backend call:
//! the payload built from the prepared turn, and the assistant message that
//! records the backend's answer.
use vstd::prelude::*;

use crate::chat_capabilities::TurnPayload;
use crate::chat_types::{ChatMessage, ChatRole, ContentPart, MessageToolCall, ToolCallResult};
use crate::completion::{turn_limits, ThreadSettings, TurnInput, TurnResponse};
use crate::error::{plain_error, GatewayError, GatewayErrorKind};
use crate::metadata::Metadata;
use crate::store::PreparedTurn;
use crate::text::{decimal, decimal_seq};
use crate::tool::{resolve_tools, resolved_tools, ToolOverride};
use crate::tool_chain::{breaks_chain, chain_message, validate_tool_message_chain};

verus! {

/// The assistant message that records `r`: its text and its tool calls.
pub open spec fn records_response(m: ChatMessage, r: TurnResponse) -> bool {
    &&& m.role == ChatRole::Assistant
    &&& m.parts@.len() == 1
    &&& m.parts@[0] matches ContentPart::Text { text } && text@ == r.output_text@
    &&& m.tool_call_id is None
    &&& m.tool_name is None
    &&& m.tool_calls@.len() == r.tool_calls@.len()
    &&& forall|i: int|
        0 <= i < r.tool_calls@.len() ==> {
            &&& (#[trigger] m.tool_calls@[i]).id@ == r.tool_calls@[i].id@
            &&& m.tool_calls@[i].name@ == r.tool_calls@[i].name@
            &&& m.tool_calls@[i].arguments_json@ == r.tool_calls@[i].arguments_json@
        }
}

/// The assistant message that records the backend's answer.
pub fn assistant_message_from_response(response: &TurnResponse) -> (m: ChatMessage)
    ensures
        records_response(m, *response),
{
    let mut tool_calls: Vec<MessageToolCall> = Vec::new();
    let mut i: usize = 0;
    while i < response.tool_calls.len()
        invariant
            i <= response.tool_calls@.len(),
            tool_calls@.len() == i,
            forall|k: int|
                0 <= k < i ==> {
                    &&& (#[trigger] tool_calls@[k]).id@ == response.tool_calls@[k].id@
                    &&& tool_calls@[k].name@ == response.tool_calls@[k].name@
                    &&& tool_calls@[k].arguments_json@ == response.tool_calls@[k].arguments_json@
                },
        decreases response.tool_calls@.len() - i,
    {
        let call: &ToolCallResult = &response.tool_calls[i];
        tool_calls.push(
            MessageToolCall {
                id: call.id.clone(),
                name: call.name.clone(),
                arguments_json: call.arguments_json.clone(),
            },
        );
        i = i + 1;
    }
    let mut parts: Vec<ContentPart> = Vec::new();
    parts.push(ContentPart::Text { text: response.output_text.clone() });
    ChatMessage { role: ChatRole::Assistant, parts, tool_call_id: None, tool_name: None, tool_calls }
}

/// The messages a turn sends: the system prompt in effect, if any, as a
/// system message, then the prepared messages.
pub open spec fn with_system_prompt(
    system_prompt: Option<String>,
    prepared: Seq<ChatMessage>,
    ms: Seq<ChatMessage>,
) -> bool {
    match system_prompt {
        None => {
            &&& ms.len() == prepared.len()
            &&& forall|i: int| 0 <= i < prepared.len() ==> (#[trigger] ms[i]).same_as(&prepared[i])
        },
        Some(p) => {
            &&& ms.len() == prepared.len() + 1
            &&& ms[0].role == ChatRole::System
            &&& ms[0].parts@.len() == 1
            &&& ms[0].parts@[0] matches ContentPart::Text { text } && text@ == p@
            &&& ms[0].tool_call_id is None
            &&& ms[0].tool_name is None
            &&& ms[0].tool_calls@.len() == 0
            &&& forall|i: int| 0 <= i < prepared.len() ==> (#[trigger] ms[i + 1]).same_as(&prepared[i])
        },
    }
}

/// The metadata of a turn on the store: the caller's, with the chat,
/// thread and turn ids added where the caller gave none.
pub open spec fn store_turn_metadata(
    m: Metadata,
    input: Metadata,
    chat_id: Seq<char>,
    thread_id: Seq<char>,
    turn_id: u64,
) -> bool {
    &&& m.wf()
    &&& m.get_spec("chat_id"@) == match input.get_spec("chat_id"@) {
        Some(v) => Some(v),
        None => Some(chat_id),
    }
    &&& m.get_spec("thread_id"@) == match input.get_spec("thread_id"@) {
        Some(v) => Some(v),
        None => Some(thread_id),
    }
    &&& m.get_spec("turn_id"@) == match input.get_spec("turn_id"@) {
        Some(v) => Some(v),
        None => Some(decimal_seq(turn_id as nat)),
    }
    &&& forall|k: Seq<char>|
        k != "chat_id"@ && k != "thread_id"@ && k != "turn_id"@ ==> #[trigger] m.get_spec(k)
            == input.get_spec(k)
}

/// Adds `value` under `key` unless `key` is there.
fn insert_missing(m: &mut Metadata, key: &str, value: String)
    requires
        old(m).wf(),
    ensures
        final(m).wf(),
        final(m).get_spec(key@) == match old(m).get_spec(key@) {
            Some(v) => Some(v),
            None => Some(value@),
        },
        forall|k: Seq<char>| k != key@ ==> final(m).get_spec(k) == old(m).get_spec(k),
{
    let present = m.get(key).is_some();
    if !present {
        m.insert(String::from_str(key), value);
    }
}

/// The payload of a turn prepared by the store: the system prompt in
/// effect before the prepared messages, whose tool messages must answer
/// open calls; the chat's tools after the input's overrides, or the
/// thread's where the input gives none; and the caller's settings where
/// given, else the chat's.
#[verifier::loop_isolation(false)]
pub fn store_turn_payload(
    prepared: &PreparedTurn,
    settings: &ThreadSettings,
    thread_tool_overrides: &Vec<ToolOverride>,
    input: &TurnInput,
    chat_id: &str,
    thread_id: &str,
) -> (r: Result<TurnPayload, GatewayError>)
    requires
        input.metadata.wf(),
    ensures
        match r {
            Ok(p) => {
                &&& with_system_prompt(prepared.system_prompt, prepared.messages@, p.messages@)
                &&& forall|i: int| 0 <= i < p.messages@.len() ==> !#[trigger] breaks_chain(p.messages@, i)
                &&& p.tools@ == resolved_tools(
                    settings.tools@,
                    if input.tool_overrides@.len() == 0 {
                        thread_tool_overrides@
                    } else {
                        input.tool_overrides@
                    },
                )
                &&& p.limits == turn_limits(*settings, *input)
                &&& p.output_mode == match input.output_mode {
                    Some(m) => m,
                    None => settings.default_output_mode,
                }
                &&& p.enable_thinking == match input.enable_thinking {
                    Some(b) => b,
                    None => settings.enable_thinking,
                }
                &&& store_turn_metadata(
                    p.metadata,
                    input.metadata,
                    chat_id@,
                    thread_id@,
                    prepared.turn_id,
                )
            },
            Err(e) => exists|ms: Seq<ChatMessage>, i: int|
                #![trigger breaks_chain(ms, i)]
                with_system_prompt(prepared.system_prompt, prepared.messages@, ms) && 0 <= i < ms.len()
                    && breaks_chain(ms, i) && (forall|k: int|
                    0 <= k < i ==> !#[trigger] breaks_chain(ms, k)) && plain_error(
                    e,
                    GatewayErrorKind::InvalidRequest,
                    chain_message(ms, i),
                ),
        },
{
    let overrides = if input.tool_overrides.len() == 0 {
        thread_tool_overrides
    } else {
        &input.tool_overrides
    };
    let tools = resolve_tools(&settings.tools, overrides);
    let mut limits = match input.limits {
        Some(l) => l,
        None => settings.default_limits,
    };
    if limits.max_request_time_ms.is_none() {
        limits.max_request_time_ms = Some(settings.default_turn_timeout_ms);
    }
    let mut messages: Vec<ChatMessage> = Vec::new();
    match &prepared.system_prompt {
        Some(sys) => {
            let mut parts: Vec<ContentPart> = Vec::new();
            parts.push(ContentPart::Text { text: sys.clone() });
            messages.push(
                ChatMessage {
                    role: ChatRole::System,
                    parts,
                    tool_call_id: None,
                    tool_name: None,
                    tool_calls: Vec::new(),
                },
            );
        },
        None => {},
    }
    assert(prepared.system_prompt is Some ==> messages@.len() == 1 && messages@[0].role == ChatRole::System);
    let ghost start = messages@;
    let mut i: usize = 0;
    while i < prepared.messages.len()
        invariant
            i <= prepared.messages@.len(),
            messages@.len() == start.len() + i,
            forall|q: int| 0 <= q < start.len() ==> messages@[q] == start[q],
            forall|q: int|
                0 <= q < i ==> (#[trigger] messages@[start.len() + q]).same_as(&prepared.messages@[q]),
        decreases prepared.messages@.len() - i,
    {
        messages.push(prepared.messages[i].duplicate());
        i = i + 1;
    }
    proof {
        if prepared.system_prompt is None {
            assert forall|q: int| 0 <= q < messages@.len() implies (#[trigger] messages@[q]).same_as(
                &prepared.messages@[q],
            ) by {
                assert(messages@[0 + q].same_as(&prepared.messages@[q]));
            }
        } else {
            assert forall|q: int| 0 <= q < prepared.messages@.len() implies (#[trigger] messages@[q
                + 1]).same_as(&prepared.messages@[q]) by {
                assert(messages@[start.len() + q].same_as(&prepared.messages@[q]));
            }
        }
    }
    assert(with_system_prompt(prepared.system_prompt, prepared.messages@, messages@));
    match validate_tool_message_chain(&messages) {
        Ok(()) => {},
        Err(e) => {
            proof {
                let i = choose|i: int|
                    0 <= i < messages@.len() && #[trigger] breaks_chain(messages@, i) && (forall|k: int|
                        0 <= k < i ==> !#[trigger] breaks_chain(messages@, k)) && plain_error(
                        e,
                        GatewayErrorKind::InvalidRequest,
                        chain_message(messages@, i),
                    );
                assert(breaks_chain(messages@, i));
            }
            return Err(e);
        },
    }
    let output_mode = match &input.output_mode {
        Some(m) => m.duplicate(),
        None => settings.default_output_mode.duplicate(),
    };
    let enable_thinking = match input.enable_thinking {
        Some(b) => b,
        None => settings.enable_thinking,
    };
    proof {
        reveal_strlit("chat_id");
        reveal_strlit("thread_id");
        reveal_strlit("turn_id");
        assert("chat_id"@.len() != "thread_id"@.len());
        assert("thread_id"@.len() != "turn_id"@.len());
        assert("chat_id"@[0] != "turn_id"@[0]);
    }
    let mut metadata = input.metadata.duplicate();
    insert_missing(&mut metadata, "chat_id", String::from_str(chat_id));
    insert_missing(&mut metadata, "thread_id", String::from_str(thread_id));
    insert_missing(&mut metadata, "turn_id", decimal(prepared.turn_id));
    Ok(TurnPayload { messages, tools, output_mode, limits, enable_thinking, metadata })
}

} // verus!
