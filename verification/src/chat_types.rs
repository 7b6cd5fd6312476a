//! Chat-domain values: roles, content parts, messages as the dispatcher
//! sends them, output modes, limits, tool calls, usage, finish reasons and
//! the events a backend and the gateway emit.
use vstd::prelude::*;

use crate::error::GatewayError;
use crate::json::JsonText;
use crate::types::BackendDialect;

verus! {

#[derive(Debug, Clone, Copy, PartialEq, Eq, Structural)]
pub enum ChatRole {
    System,
    User,
    Assistant,
    Tool,
}

#[derive(Debug, PartialEq, Eq)]
pub enum ContentPart {
    Text { text: String },
    ImageUrl { url: String, mime_type: Option<String> },
    Json { value: JsonText },
}

impl ContentPart {
    pub fn duplicate(&self) -> (r: ContentPart)
        ensures
            r == *self,
    {
        match self {
            ContentPart::Text { text } => ContentPart::Text { text: text.clone() },
            ContentPart::ImageUrl { url, mime_type } => ContentPart::ImageUrl {
                url: url.clone(),
                mime_type: match mime_type {
                    Some(m) => Some(m.clone()),
                    None => None,
                },
            },
            ContentPart::Json { value } => ContentPart::Json { value: value.duplicate() },
        }
    }
}

/// A copy of a list of content parts.
pub fn copy_parts(v: &Vec<ContentPart>) -> (r: Vec<ContentPart>)
    ensures
        r@ == v@,
{
    let mut r: Vec<ContentPart> = Vec::new();
    let mut i: usize = 0;
    while i < v.len()
        invariant
            i <= v.len(),
            r@ == v@.subrange(0, i as int),
        decreases v.len() - i,
    {
        r.push(v[i].duplicate());
        i = i + 1;
        assert(r@ =~= v@.subrange(0, i as int));
    }
    assert(r@ =~= v@);
    r
}

#[derive(Debug, PartialEq, Eq)]
pub struct MessageToolCall {
    pub id: String,
    pub name: String,
    pub arguments_json: String,
}

impl MessageToolCall {
    pub fn duplicate(&self) -> (r: MessageToolCall)
        ensures
            r == *self,
    {
        MessageToolCall {
            id: self.id.clone(),
            name: self.name.clone(),
            arguments_json: self.arguments_json.clone(),
        }
    }
}

/// A copy of a list of tool calls.
pub fn copy_tool_calls(v: &Vec<MessageToolCall>) -> (r: Vec<MessageToolCall>)
    ensures
        r@ == v@,
{
    let mut r: Vec<MessageToolCall> = Vec::new();
    let mut i: usize = 0;
    while i < v.len()
        invariant
            i <= v.len(),
            r@ == v@.subrange(0, i as int),
        decreases v.len() - i,
    {
        r.push(v[i].duplicate());
        i = i + 1;
        assert(r@ =~= v@.subrange(0, i as int));
    }
    assert(r@ =~= v@);
    r
}

#[derive(Debug)]
pub struct ChatMessage {
    pub role: ChatRole,
    pub parts: Vec<ContentPart>,
    pub tool_call_id: Option<String>,
    pub tool_name: Option<String>,
    pub tool_calls: Vec<MessageToolCall>,
}

impl ChatMessage {
    /// Equal field by field, lists compared by their elements.
    pub open spec fn same_as(&self, other: &ChatMessage) -> bool {
        &&& self.role == other.role
        &&& self.parts@ == other.parts@
        &&& self.tool_call_id == other.tool_call_id
        &&& self.tool_name == other.tool_name
        &&& self.tool_calls@ == other.tool_calls@
    }

    pub fn duplicate(&self) -> (r: ChatMessage)
        ensures
            r.same_as(self),
    {
        ChatMessage {
            role: self.role,
            parts: copy_parts(&self.parts),
            tool_call_id: match &self.tool_call_id {
                Some(s) => Some(s.clone()),
                None => None,
            },
            tool_name: match &self.tool_name {
                Some(s) => Some(s.clone()),
                None => None,
            },
            tool_calls: copy_tool_calls(&self.tool_calls),
        }
    }
}

pub fn default_json_schema_strict_true() -> (r: bool)
    ensures
        r,
{
    true
}

#[derive(Debug)]
pub enum OutputMode {
    Text,
    JsonObject,
    JsonSchema { name: String, schema: JsonText, strict: bool },
}

impl OutputMode {
    pub fn duplicate(&self) -> (r: OutputMode)
        ensures
            r == *self,
    {
        match self {
            OutputMode::Text => OutputMode::Text,
            OutputMode::JsonObject => OutputMode::JsonObject,
            OutputMode::JsonSchema { name, schema, strict } => OutputMode::JsonSchema {
                name: name.clone(),
                schema: schema.duplicate(),
                strict: *strict,
            },
        }
    }
}

#[derive(Debug, Clone, Copy, PartialEq, Eq, Structural, Default)]
pub struct TurnLimits {
    pub max_output_tokens: Option<u64>,
    pub max_request_time_ms: Option<u64>,
}

#[derive(Debug, Clone, Copy, PartialEq, Eq, Structural)]
pub enum ToolCallStatus {
    Partial,
    Ready,
    Executed,
    Rejected,
}

#[derive(Debug, PartialEq, Eq)]
pub struct ToolCallResult {
    pub id: String,
    pub name: String,
    pub arguments_json: String,
    pub status: ToolCallStatus,
}

#[derive(Debug, PartialEq, Eq)]
pub struct UsageStats {
    pub input_tokens: Option<u64>,
    pub output_tokens: Option<u64>,
    pub total_tokens: Option<u64>,
    pub provider_usage_raw: Option<JsonText>,
}

#[derive(Debug, PartialEq, Eq)]
pub enum FinishReason {
    Stop,
    Length,
    ToolCalls,
    Other(String),
}

impl UsageStats {
    pub fn duplicate(&self) -> (r: UsageStats)
        ensures
            r == *self,
    {
        UsageStats {
            input_tokens: self.input_tokens,
            output_tokens: self.output_tokens,
            total_tokens: self.total_tokens,
            provider_usage_raw: match &self.provider_usage_raw {
                Some(raw) => Some(raw.duplicate()),
                None => None,
            },
        }
    }
}

impl FinishReason {
    pub fn duplicate(&self) -> (r: FinishReason)
        ensures
            r == *self,
    {
        match self {
            FinishReason::Stop => FinishReason::Stop,
            FinishReason::Length => FinishReason::Length,
            FinishReason::ToolCalls => FinishReason::ToolCalls,
            FinishReason::Other(s) => FinishReason::Other(s.clone()),
        }
    }
}

#[derive(Debug)]
pub struct BackendIdentity {
    pub backend_id: String,
    pub dialect: BackendDialect,
    pub model: String,
}

#[derive(Debug)]
pub enum BackendRawEvent {
    OutputTextDelta { delta: String },
    ToolCallDelta { call_id: String, name: Option<String>, arguments_delta: String },
    ToolCallReady { call: ToolCallResult },
    Usage { usage: UsageStats },
    Completed { finish_reason: FinishReason },
    Failed { error: GatewayError },
}

#[derive(Debug)]
pub enum ChatEvent {
    Started { backend_id: String, model_id: String },
    TextDelta { delta: String },
    ToolCallDelta { call_id: String, name: Option<String>, arguments_delta: String },
    ToolCallReady { call: ToolCallResult },
    Usage { usage: UsageStats },
    Completed { finish_reason: FinishReason },
    Failed { error: GatewayError },
}

impl ChatEvent {
    /// Text or tool-call output reached the caller.
    pub fn is_output(&self) -> (r: bool)
        ensures
            r == (self is TextDelta || self is ToolCallDelta || self is ToolCallReady),
    {
        match self {
            ChatEvent::TextDelta { .. } | ChatEvent::ToolCallDelta { .. }
            | ChatEvent::ToolCallReady { .. } => true,
            _ => false,
        }
    }

    pub fn is_tool(&self) -> (r: bool)
        ensures
            r == (self is ToolCallDelta || self is ToolCallReady),
    {
        match self {
            ChatEvent::ToolCallDelta { .. } | ChatEvent::ToolCallReady { .. } => true,
            _ => false,
        }
    }

    pub fn is_terminal(&self) -> (r: bool)
        ensures
            r == (self is Completed || self is Failed),
    {
        match self {
            ChatEvent::Completed { .. } | ChatEvent::Failed { .. } => true,
            _ => false,
        }
    }
}

/// The gateway event for a backend event: the same payload, one variant
/// for one variant.
pub open spec fn raw_event_maps_to(raw: BackendRawEvent, ev: ChatEvent) -> bool {
    match (raw, ev) {
        (BackendRawEvent::OutputTextDelta { delta: a }, ChatEvent::TextDelta { delta: b }) => a
            == b,
        (
            BackendRawEvent::ToolCallDelta { call_id: c1, name: n1, arguments_delta: a1 },
            ChatEvent::ToolCallDelta { call_id: c2, name: n2, arguments_delta: a2 },
        ) => c1 == c2 && n1 == n2 && a1 == a2,
        (BackendRawEvent::ToolCallReady { call: a }, ChatEvent::ToolCallReady { call: b }) => a
            == b,
        (BackendRawEvent::Usage { usage: a }, ChatEvent::Usage { usage: b }) => a == b,
        (BackendRawEvent::Completed { finish_reason: a }, ChatEvent::Completed {
            finish_reason: b,
        }) => a == b,
        (BackendRawEvent::Failed { error: a }, ChatEvent::Failed { error: b }) => a == b,
        _ => false,
    }
}

/// Maps a backend event to the event the gateway emits.
pub fn map_raw_event(raw: BackendRawEvent) -> (ev: ChatEvent)
    ensures
        raw_event_maps_to(raw, ev),
{
    match raw {
        BackendRawEvent::OutputTextDelta { delta } => ChatEvent::TextDelta { delta },
        BackendRawEvent::ToolCallDelta { call_id, name, arguments_delta } => {
            ChatEvent::ToolCallDelta { call_id, name, arguments_delta }
        },
        BackendRawEvent::ToolCallReady { call } => ChatEvent::ToolCallReady { call },
        BackendRawEvent::Usage { usage } => ChatEvent::Usage { usage },
        BackendRawEvent::Completed { finish_reason } => ChatEvent::Completed { finish_reason },
        BackendRawEvent::Failed { error } => ChatEvent::Failed { error },
    }
}

/// The wire name of a role.
pub open spec fn role_wire(role: ChatRole) -> Seq<char> {
    match role {
        ChatRole::System => "system"@,
        ChatRole::User => "user"@,
        ChatRole::Assistant => "assistant"@,
        ChatRole::Tool => "tool"@,
    }
}

pub fn role_to_wire(role: &ChatRole) -> (r: &'static str)
    ensures
        r@ == role_wire(*role),
{
    match role {
        ChatRole::System => "system",
        ChatRole::User => "user",
        ChatRole::Assistant => "assistant",
        ChatRole::Tool => "tool",
    }
}

/// The finish reason a backend's `finish_reason` text stands for; a
/// missing one means a normal stop.
pub open spec fn finish_reason_matches(value: Option<Seq<char>>, r: FinishReason) -> bool {
    let v = match value {
        Some(s) => s,
        None => "stop"@,
    };
    if v == "stop"@ {
        r == FinishReason::Stop
    } else if v == "length"@ {
        r == FinishReason::Length
    } else if v == "tool_calls"@ {
        r == FinishReason::ToolCalls
    } else {
        r matches FinishReason::Other(o) && o@ == v
    }
}

pub fn parse_finish_reason(value: Option<&str>) -> (r: FinishReason)
    ensures
        finish_reason_matches(
            match value {
                Some(s) => Some(s@),
                None => None,
            },
            r,
        ),
{
    let v = match value {
        Some(s) => s,
        None => "stop",
    };
    if crate::text::str_eq(v, "stop") {
        FinishReason::Stop
    } else if crate::text::str_eq(v, "length") {
        FinishReason::Length
    } else if crate::text::str_eq(v, "tool_calls") {
        FinishReason::ToolCalls
    } else {
        FinishReason::Other(String::from_str(v))
    }
}

} // verus!
