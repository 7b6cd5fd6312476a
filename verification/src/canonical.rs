//! The gateway's request and event model: what callers send, the
//! canonical request that backends receive, the checks on the way, and the
//! events that come back.
use vstd::prelude::*;

use crate::chat_types::{FinishReason, ToolCallStatus, UsageStats};
use crate::error::{invalid_request, plain_error, GatewayError, GatewayErrorKind};
use crate::json::JsonText;
use crate::metadata::Metadata;
use crate::tool::{check_schema_keywords, schema_check, schema_error};
use crate::text::{ascii_lower_seq, contains, contains_seq, to_ascii_lowercase};

verus! {

#[derive(Debug, Clone, Copy, PartialEq, Eq, Structural)]
pub enum BelunaRole {
    System,
    User,
    Assistant,
    Tool,
}

#[derive(Debug, PartialEq, Eq)]
pub enum BelunaContentPart {
    Text { text: String },
    ImageUrl { url: String, mime_type: Option<String> },
    Json { value: JsonText },
}

#[derive(Debug)]
pub struct BelunaMessage {
    pub role: BelunaRole,
    pub parts: Vec<BelunaContentPart>,
    pub tool_call_id: Option<String>,
    pub tool_name: Option<String>,
}

#[derive(Debug, PartialEq, Eq)]
pub struct BelunaToolDefinition {
    pub name: String,
    pub description: Option<String>,
    pub input_schema: JsonText,
}

/// Which tool the backend may call.
#[derive(Debug, PartialEq, Eq)]
pub enum ToolChoice {
    Auto,
    NoTool,
    Required,
    Specific { name: String },
}

#[derive(Debug, Clone, Copy, PartialEq, Eq, Structural)]
pub enum OutputMode {
    Text,
    JsonObject,
}

#[derive(Debug, Clone, Copy, PartialEq, Eq, Structural)]
pub struct RequestLimitOverrides {
    pub max_output_tokens: Option<u64>,
    pub max_request_time_ms: Option<u64>,
}

impl Default for RequestLimitOverrides {
    fn default() -> (r: RequestLimitOverrides)
        ensures
            r.max_output_tokens is None,
            r.max_request_time_ms is None,
    {
        RequestLimitOverrides { max_output_tokens: None, max_request_time_ms: None }
    }
}

/// A chat request as a caller writes it.
#[derive(Debug)]
pub struct ChatRequest {
    pub request_id: Option<String>,
    pub route: Option<String>,
    pub messages: Vec<BelunaMessage>,
    pub tools: Vec<BelunaToolDefinition>,
    pub tool_choice: ToolChoice,
    pub output_mode: OutputMode,
    pub limits: RequestLimitOverrides,
    pub metadata: Metadata,
    pub cost_attribution_id: Option<String>,
}

#[derive(Debug, Clone, Copy, PartialEq, Eq, Structural)]
pub enum CanonicalRole {
    System,
    User,
    Assistant,
    Tool,
}

#[derive(Debug, PartialEq, Eq)]
pub enum CanonicalContentPart {
    Text { text: String },
    ImageUrl { url: String, mime_type: Option<String> },
    Json { value: JsonText },
}

#[derive(Debug)]
pub struct CanonicalMessage {
    pub role: CanonicalRole,
    pub parts: Vec<CanonicalContentPart>,
    pub tool_call_id: Option<String>,
    pub tool_name: Option<String>,
}

#[derive(Debug, PartialEq, Eq)]
pub struct CanonicalToolDefinition {
    pub name: String,
    pub description: Option<String>,
    pub input_schema: JsonText,
}

#[derive(Debug, PartialEq, Eq)]
pub enum CanonicalToolChoice {
    Auto,
    NoTool,
    Required,
    Specific { name: String },
}

#[derive(Debug)]
pub enum CanonicalOutputMode {
    Text,
    JsonObject,
    JsonSchema { name: String, schema: JsonText, strict: bool },
}

#[derive(Debug, Clone, Copy, PartialEq, Eq, Structural)]
pub struct CanonicalLimits {
    pub max_output_tokens: Option<u64>,
    pub max_request_time_ms: Option<u64>,
}

impl Default for CanonicalLimits {
    fn default() -> (r: CanonicalLimits)
        ensures
            r.max_output_tokens is None,
            r.max_request_time_ms is None,
    {
        CanonicalLimits { max_output_tokens: None, max_request_time_ms: None }
    }
}

#[derive(Debug, PartialEq, Eq)]
pub struct CanonicalToolCall {
    pub id: String,
    pub name: String,
    pub arguments_json: String,
    pub status: ToolCallStatus,
}

/// The request that backends receive.
#[derive(Debug)]
pub struct CanonicalRequest {
    pub request_id: String,
    pub route_hint: Option<String>,
    pub messages: Vec<CanonicalMessage>,
    pub tools: Vec<CanonicalToolDefinition>,
    pub tool_choice: CanonicalToolChoice,
    pub output_mode: CanonicalOutputMode,
    pub limits: CanonicalLimits,
    pub metadata: Metadata,
    pub cost_attribution_id: Option<String>,
    pub stream: bool,
}

/// An event of a gateway request, as callers see it.
#[derive(Debug)]
pub enum ChatEvent {
    Started { request_id: String, backend_id: String, model_id: String },
    TextDelta { request_id: String, delta: String },
    ToolCallDelta { request_id: String, call_id: String, name: Option<String>, arguments_delta: String },
    ToolCallReady { request_id: String, call: CanonicalToolCall },
    Usage { request_id: String, usage: UsageStats },
    Completed { request_id: String, finish_reason: FinishReason },
    Failed { request_id: String, error: GatewayError },
}

/// An event as a backend adapter reports it.
#[derive(Debug)]
pub enum BackendRawEvent {
    OutputTextDelta { delta: String },
    ToolCallDelta { call_id: String, name: Option<String>, arguments_delta: String },
    ToolCallReady { call: CanonicalToolCall },
    Usage { usage: UsageStats },
    Completed { finish_reason: FinishReason },
    Failed { error: GatewayError },
}

/// The problem with the tool fields of a message, if any.
pub open spec fn message_linkage_error(m: BelunaMessage) -> Option<Seq<char>> {
    if m.role == BelunaRole::Tool {
        if m.tool_call_id is None {
            Some("tool role message must include tool_call_id"@)
        } else if m.tool_name is None {
            Some("tool role message must include tool_name"@)
        } else if exists|i: int|
            0 <= i < m.parts@.len() && #[trigger] m.parts@[i] is ImageUrl {
            Some("tool role message parts may only contain text/json"@)
        } else {
            None
        }
    } else if m.tool_call_id is Some {
        Some("non-tool message must not include tool_call_id"@)
    } else if m.tool_name is Some {
        Some("non-tool message must not include tool_name"@)
    } else {
        None
    }
}

/// The first message with a linkage problem, and that problem.
pub open spec fn first_message_error(ms: Seq<BelunaMessage>) -> Option<Seq<char>>
    decreases ms.len(),
{
    if ms.len() == 0 {
        None
    } else {
        match first_message_error(ms.drop_last()) {
            Some(e) => Some(e),
            None => message_linkage_error(ms.last()),
        }
    }
}

/// The error of the first tool whose schema check fails.
pub open spec fn first_tool_error(ts: Seq<BelunaToolDefinition>) -> Option<Seq<char>>
    decreases ts.len(),
{
    if ts.len() == 0 {
        None
    } else {
        match first_tool_error(ts.drop_last()) {
            Some(e) => Some(e),
            None => schema_error(ts.last().name@, ts.last().input_schema.text@),
        }
    }
}

/// The error that normalizing a request gives, if any.
pub open spec fn request_error(request: ChatRequest) -> Option<Seq<char>> {
    if request.messages@.len() == 0 {
        Some("messages must not be empty"@)
    } else {
        match first_message_error(request.messages@) {
            Some(e) => Some(e),
            None => first_tool_error(request.tools@),
        }
    }
}

/// `c` is the canonical form of `request`, sent as a stream or not.
pub open spec fn canonical_request_of(request: ChatRequest, stream: bool, c: CanonicalRequest) -> bool {
    &&& (request.request_id matches Some(id) ==> c.request_id == id)
    &&& (request.request_id is None ==> uuid_v7_text(c.request_id@))
    &&& c.route_hint == request.route
    &&& c.messages@.len() == request.messages@.len()
    &&& forall|i: int|
        0 <= i < c.messages@.len() ==> canonical_message_of(
            request.messages@[i],
            #[trigger] c.messages@[i],
        )
    &&& c.tools@.len() == request.tools@.len()
    &&& forall|i: int|
        0 <= i < c.tools@.len() ==> {
            let t = request.tools@[i];
            let u = #[trigger] c.tools@[i];
            u.name == t.name && u.description == t.description && u.input_schema == t.input_schema
        }
    &&& c.tool_choice == tool_choice_of(request.tool_choice)
    &&& (request.output_mode == OutputMode::Text ==> c.output_mode is Text)
    &&& (request.output_mode == OutputMode::JsonObject ==> c.output_mode is JsonObject)
    &&& c.limits.max_output_tokens == request.limits.max_output_tokens
    &&& c.limits.max_request_time_ms == request.limits.max_request_time_ms
    &&& c.metadata == request.metadata
    &&& c.cost_attribution_id == request.cost_attribution_id
    &&& c.stream == stream
}

proof fn lemma_first_message_error_prefix(ms: Seq<BelunaMessage>, k: int)
    requires
        0 <= k <= ms.len(),
        first_message_error(ms.take(k)) is Some,
    ensures
        first_message_error(ms) == first_message_error(ms.take(k)),
    decreases ms.len(),
{
    if k == ms.len() {
        assert(ms.take(k) =~= ms);
    } else {
        assert(ms.drop_last().take(k) =~= ms.take(k));
        lemma_first_message_error_prefix(ms.drop_last(), k);
    }
}

proof fn lemma_first_tool_error_prefix(ts: Seq<BelunaToolDefinition>, k: int)
    requires
        0 <= k <= ts.len(),
        first_tool_error(ts.take(k)) is Some,
    ensures
        first_tool_error(ts) == first_tool_error(ts.take(k)),
    decreases ts.len(),
{
    if k == ts.len() {
        assert(ts.take(k) =~= ts);
    } else {
        assert(ts.drop_last().take(k) =~= ts.take(k));
        lemma_first_tool_error_prefix(ts.drop_last(), k);
    }
}

/// Whether a metadata key names a secret: its lowercase form holds
/// `token` or `key`.
pub open spec fn is_secret_key(k: Seq<char>) -> bool {
    contains_seq(ascii_lower_seq(k), "token"@) || contains_seq(ascii_lower_seq(k), "key"@)
}

/// The value a metadata entry shows after redaction.
pub open spec fn redacted_value(k: Seq<char>, v: Option<Seq<char>>) -> Option<Seq<char>> {
    match v {
        Some(x) => Some(
            if is_secret_key(k) {
                "<redacted>"@
            } else {
                x
            },
        ),
        None => None,
    }
}

pub open spec fn role_of(r: BelunaRole) -> CanonicalRole {
    match r {
        BelunaRole::System => CanonicalRole::System,
        BelunaRole::User => CanonicalRole::User,
        BelunaRole::Assistant => CanonicalRole::Assistant,
        BelunaRole::Tool => CanonicalRole::Tool,
    }
}

pub open spec fn part_of(p: BelunaContentPart) -> CanonicalContentPart {
    match p {
        BelunaContentPart::Text { text } => CanonicalContentPart::Text { text },
        BelunaContentPart::ImageUrl { url, mime_type } => CanonicalContentPart::ImageUrl {
            url,
            mime_type,
        },
        BelunaContentPart::Json { value } => CanonicalContentPart::Json { value },
    }
}

/// `c` carries the role, parts and tool fields of `m`.
pub open spec fn canonical_message_of(m: BelunaMessage, c: CanonicalMessage) -> bool {
    &&& c.role == role_of(m.role)
    &&& c.parts@ == m.parts@.map_values(|p: BelunaContentPart| part_of(p))
    &&& c.tool_call_id == m.tool_call_id
    &&& c.tool_name == m.tool_name
}

pub open spec fn tool_choice_of(t: ToolChoice) -> CanonicalToolChoice {
    match t {
        ToolChoice::Auto => CanonicalToolChoice::Auto,
        ToolChoice::NoTool => CanonicalToolChoice::NoTool,
        ToolChoice::Required => CanonicalToolChoice::Required,
        ToolChoice::Specific { name } => CanonicalToolChoice::Specific { name },
    }
}

/// A lowercase hexadecimal digit.
pub open spec fn is_lower_hex(c: char) -> bool {
    ('0' <= c && c <= '9') || ('a' <= c && c <= 'f')
}

/// The hyphenated text of a version 7 UUID: 36 characters, hyphens at
/// 8, 13, 18 and 23, lowercase hexadecimal digits elsewhere, the version
/// digit '7' at 14 and the variant digit (8, 9, a or b) at 19.
pub open spec fn uuid_v7_text(s: Seq<char>) -> bool {
    &&& s.len() == 36
    &&& forall|i: int|
        0 <= i < 36 ==> if i == 8 || i == 13 || i == 18 || i == 23 {
            #[trigger] s[i] == '-'
        } else {
            is_lower_hex(s[i])
        }
    &&& s[14] == '7'
    &&& (s[19] == '8' || s[19] == '9' || s[19] == 'a' || s[19] == 'b')
}

/// A fresh request id from `uuid::Uuid::now_v7`, written by its `Display`
/// impl. The clock and chance decide its digits; the contract claims its
/// shape, which uuid's hyphenated lowercase formatting and its version 7
/// layout (version and variant bits) fix. `now_v7` panics where the system
/// clock stands before 1970 or the operating system's random source fails;
/// those depend on the machine, not on any input, and are not excluded
/// here.
#[verifier::external_body]
fn new_request_id() -> (r: String)
    ensures
        uuid_v7_text(r@),
{
    uuid::Uuid::now_v7().to_string()
}

/// Turns a caller's request into the canonical request.
#[derive(Debug, Clone, Copy)]
pub struct RequestNormalizer;

impl RequestNormalizer {
    /// Checks the tool fields of a message: a tool message names its call
    /// and tool and holds no image; other messages name neither.
    pub fn validate_message_linkage(message: &BelunaMessage) -> (r: Result<(), GatewayError>)
        ensures
            match message_linkage_error(*message) {
                Some(m) => r matches Err(e) && plain_error(e, GatewayErrorKind::InvalidRequest, m),
                None => r is Ok,
            },
    {
        match message.role {
            BelunaRole::Tool => {
                if message.tool_call_id.is_none() {
                    return Err(invalid_request("tool role message must include tool_call_id"));
                }
                if message.tool_name.is_none() {
                    return Err(invalid_request("tool role message must include tool_name"));
                }
                let mut i: usize = 0;
                while i < message.parts.len()
                    invariant
                        i <= message.parts@.len(),
                        message.role == BelunaRole::Tool,
                        message.tool_call_id is Some,
                        message.tool_name is Some,
                        forall|j: int| 0 <= j < i ==> !(#[trigger] message.parts@[j] is ImageUrl),
                    decreases message.parts@.len() - i,
                {
                    match &message.parts[i] {
                        BelunaContentPart::ImageUrl { .. } => {
                            assert(message.parts@[i as int] is ImageUrl);
                            return Err(
                                invalid_request("tool role message parts may only contain text/json"),
                            );
                        },
                        _ => {},
                    }
                    i = i + 1;
                }
            },
            _ => {
                if message.tool_call_id.is_some() {
                    return Err(invalid_request("non-tool message must not include tool_call_id"));
                }
                if message.tool_name.is_some() {
                    return Err(invalid_request("non-tool message must not include tool_name"));
                }
            },
        }
        Ok(())
    }

    /// Checks that a tool's input schema is a JSON object of accepted
    /// keywords.
    pub fn validate_tool_schema_keywords(tool: &BelunaToolDefinition) -> (r: Result<(), GatewayError>)
        ensures
            schema_check(tool.name@, tool.input_schema.text@, r),
    {
        check_schema_keywords(tool.name.as_str(), &tool.input_schema)
    }

    pub fn map_message(message: BelunaMessage) -> (r: CanonicalMessage)
        ensures
            canonical_message_of(message, r),
    {
        let role = match message.role {
            BelunaRole::System => CanonicalRole::System,
            BelunaRole::User => CanonicalRole::User,
            BelunaRole::Assistant => CanonicalRole::Assistant,
            BelunaRole::Tool => CanonicalRole::Tool,
        };
        let ghost src = message.parts@;
        let mut rest = message.parts;
        let mut parts: Vec<CanonicalContentPart> = Vec::new();
        let total = rest.len();
        let mut k: usize = 0;
        while rest.len() > 0
            invariant
                k + rest@.len() == src.len(),
                src.len() == total,
                rest@ == src.skip(k as int),
                parts@ == src.take(k as int).map_values(|p: BelunaContentPart| part_of(p)),
            decreases rest@.len(),
        {
            let part = rest.remove(0);
            assert(part == src[k as int]);
            assert(rest@ =~= src.skip(k + 1));
            let mapped = match part {
                BelunaContentPart::Text { text } => CanonicalContentPart::Text { text },
                BelunaContentPart::ImageUrl { url, mime_type } => CanonicalContentPart::ImageUrl {
                    url,
                    mime_type,
                },
                BelunaContentPart::Json { value } => CanonicalContentPart::Json { value },
            };
            parts.push(mapped);
            assert(parts@ =~= src.take(k + 1).map_values(|p: BelunaContentPart| part_of(p)));
            k = k + 1;
        }
        assert(src.take(k as int) =~= src);
        CanonicalMessage {
            role,
            parts,
            tool_call_id: message.tool_call_id,
            tool_name: message.tool_name,
        }
    }

    pub fn map_tool(tool: BelunaToolDefinition) -> (r: CanonicalToolDefinition)
        ensures
            r.name == tool.name,
            r.description == tool.description,
            r.input_schema == tool.input_schema,
    {
        CanonicalToolDefinition {
            name: tool.name,
            description: tool.description,
            input_schema: tool.input_schema,
        }
    }

    pub fn map_tool_choice(choice: ToolChoice) -> (r: CanonicalToolChoice)
        ensures
            r == tool_choice_of(choice),
            (choice is Auto <==> r is Auto),
            (choice is NoTool <==> r is NoTool),
            (choice is Required <==> r is Required),
            (choice matches ToolChoice::Specific { name } ==> r == CanonicalToolChoice::Specific { name }),
    {
        match choice {
            ToolChoice::Auto => CanonicalToolChoice::Auto,
            ToolChoice::NoTool => CanonicalToolChoice::NoTool,
            ToolChoice::Required => CanonicalToolChoice::Required,
            ToolChoice::Specific { name } => CanonicalToolChoice::Specific { name },
        }
    }

    pub fn map_output_mode(mode: OutputMode) -> (r: CanonicalOutputMode)
        ensures
            mode == OutputMode::Text ==> r is Text,
            mode == OutputMode::JsonObject ==> r is JsonObject,
    {
        match mode {
            OutputMode::Text => CanonicalOutputMode::Text,
            OutputMode::JsonObject => CanonicalOutputMode::JsonObject,
        }
    }
}

impl RequestNormalizer {
    /// The canonical form of `request`: the request must hold messages,
    /// each message's tool fields must fit its role and each tool's schema
    /// must pass the keyword check. A request without an id gets a fresh one.
    pub fn normalize(&self, request: ChatRequest, stream: bool) -> (r: Result<CanonicalRequest, GatewayError>)
        ensures
            match request_error(request) {
                Some(m) => r matches Err(e) && plain_error(e, GatewayErrorKind::InvalidRequest, m),
                None => r matches Ok(c) && canonical_request_of(request, stream, c),
            },
    {
        if request.messages.len() == 0 {
            return Err(invalid_request("messages must not be empty"));
        }
        let mut i: usize = 0;
        while i < request.messages.len()
            invariant
                i <= request.messages@.len(),
                first_message_error(request.messages@.take(i as int)) is None,
            decreases request.messages@.len() - i,
        {
            assert(request.messages@.take(i + 1).drop_last() =~= request.messages@.take(i as int));
            assert(request.messages@.take(i + 1).last() == request.messages@[i as int]);
            match Self::validate_message_linkage(&request.messages[i]) {
                Err(e) => {
                    proof {
                        lemma_first_message_error_prefix(request.messages@, i + 1);
                    }
                    return Err(e);
                },
                Ok(()) => {},
            }
            i = i + 1;
        }
        assert(request.messages@.take(request.messages@.len() as int) =~= request.messages@);
        let mut t: usize = 0;
        while t < request.tools.len()
            invariant
                t <= request.tools@.len(),
                request.messages@.len() > 0,
                first_message_error(request.messages@) is None,
                first_tool_error(request.tools@.take(t as int)) is None,
            decreases request.tools@.len() - t,
        {
            assert(request.tools@.take(t + 1).drop_last() =~= request.tools@.take(t as int));
            assert(request.tools@.take(t + 1).last() == request.tools@[t as int]);
            match Self::validate_tool_schema_keywords(&request.tools[t]) {
                Err(e) => {
                    proof {
                        lemma_first_tool_error_prefix(request.tools@, t + 1);
                    }
                    return Err(e);
                },
                Ok(()) => {},
            }
            t = t + 1;
        }
        assert(request.tools@.take(request.tools@.len() as int) =~= request.tools@);
        let ghost src = request;
        let ChatRequest {
            request_id,
            route,
            messages,
            tools,
            tool_choice,
            output_mode,
            limits,
            metadata,
            cost_attribution_id,
        } = request;
        let request_id = match request_id {
            Some(id) => id,
            None => new_request_id(),
        };
        let ghost msgs = messages@;
        let mut rest = messages;
        let mut out: Vec<CanonicalMessage> = Vec::new();
        let total = rest.len();
        let mut k: usize = 0;
        while rest.len() > 0
            invariant
                k + rest@.len() == msgs.len(),
                msgs.len() == total,
                rest@ == msgs.skip(k as int),
                out@.len() == k,
                forall|j: int| 0 <= j < k ==> canonical_message_of(msgs[j], #[trigger] out@[j]),
            decreases rest@.len(),
        {
            let m = rest.remove(0);
            assert(m == msgs[k as int]);
            assert(rest@ =~= msgs.skip(k + 1));
            out.push(Self::map_message(m));
            k = k + 1;
        }
        let ghost ts = tools@;
        let mut rest_tools = tools;
        let mut out_tools: Vec<CanonicalToolDefinition> = Vec::new();
        let total_tools = rest_tools.len();
        let mut k2: usize = 0;
        while rest_tools.len() > 0
            invariant
                k2 + rest_tools@.len() == ts.len(),
                ts.len() == total_tools,
                rest_tools@ == ts.skip(k2 as int),
                out_tools@.len() == k2,
                forall|j: int|
                    0 <= j < k2 ==> {
                        let a = ts[j];
                        let b = #[trigger] out_tools@[j];
                        b.name == a.name && b.description == a.description && b.input_schema
                            == a.input_schema
                    },
            decreases rest_tools@.len(),
        {
            let tool = rest_tools.remove(0);
            assert(tool == ts[k2 as int]);
            assert(rest_tools@ =~= ts.skip(k2 + 1));
            out_tools.push(Self::map_tool(tool));
            k2 = k2 + 1;
        }
        Ok(
            CanonicalRequest {
                request_id,
                route_hint: route,
                messages: out,
                tools: out_tools,
                tool_choice: Self::map_tool_choice(tool_choice),
                output_mode: Self::map_output_mode(output_mode),
                limits: CanonicalLimits {
                    max_output_tokens: limits.max_output_tokens,
                    max_request_time_ms: limits.max_request_time_ms,
                },
                metadata,
                cost_attribution_id,
                stream,
            },
        )
    }
}

/// A copy of `metadata` whose values under secret keys read `<redacted>`.
pub fn redact_metadata(metadata: &Metadata) -> (r: Metadata)
    ensures
        r.wf(),
        forall|k: Seq<char>| #[trigger] r.get_spec(k) == redacted_value(k, metadata.get_spec(k)),
{
    let mut out = Metadata::new();
    let n = metadata.len();
    let mut i: usize = 0;
    while i < n
        invariant
            n == metadata.entries().len(),
            i <= n,
            out.wf(),
            forall|k: Seq<char>|
                #[trigger] out.get_spec(k) == redacted_value(
                    k,
                    crate::metadata::lookup(metadata.entries().take(i as int), k),
                ),
        decreases n - i,
    {
        let (k, v) = metadata.entry(i);
        let lower = to_ascii_lowercase(k.as_str());
        let secret = contains(lower.as_str(), "token") || contains(lower.as_str(), "key");
        let value = if secret {
            String::from_str("<redacted>")
        } else {
            v.clone()
        };
        let ghost e = metadata.entries();
        assert(e.take(i + 1).drop_last() =~= e.take(i as int));
        assert(e.take(i + 1).last() == e[i as int]);
        out.insert(k.clone(), value);
        i = i + 1;
    }
    assert(metadata.entries().take(n as int) =~= metadata.entries());
    out
}

/// The caller's event for a backend event of request `request_id`.
pub open spec fn gateway_event_of(request_id: String, raw: BackendRawEvent, ev: ChatEvent) -> bool {
    match (raw, ev) {
        (BackendRawEvent::OutputTextDelta { delta: a }, ChatEvent::TextDelta { request_id: id, delta: b }) =>
            id == request_id && a == b,
        (
            BackendRawEvent::ToolCallDelta { call_id: c1, name: n1, arguments_delta: a1 },
            ChatEvent::ToolCallDelta { request_id: id, call_id: c2, name: n2, arguments_delta: a2 },
        ) => id == request_id && c1 == c2 && n1 == n2 && a1 == a2,
        (BackendRawEvent::ToolCallReady { call: a }, ChatEvent::ToolCallReady { request_id: id, call: b }) =>
            id == request_id && a == b,
        (BackendRawEvent::Usage { usage: a }, ChatEvent::Usage { request_id: id, usage: b }) => id
            == request_id && a == b,
        (
            BackendRawEvent::Completed { finish_reason: a },
            ChatEvent::Completed { request_id: id, finish_reason: b },
        ) => id == request_id && a == b,
        (BackendRawEvent::Failed { error: a }, ChatEvent::Failed { request_id: id, error: b }) => id
            == request_id && a == b,
        _ => false,
    }
}

/// Turns backend events into the caller's events.
#[derive(Debug, Clone, Copy)]
pub struct ResponseNormalizer;

impl ResponseNormalizer {
    pub fn map_raw(&self, request_id: &String, raw: BackendRawEvent) -> (r: Result<ChatEvent, GatewayError>)
        ensures
            r matches Ok(ev) && gateway_event_of(*request_id, raw, ev),
    {
        let id = request_id.clone();
        let event = match raw {
            BackendRawEvent::OutputTextDelta { delta } => ChatEvent::TextDelta { request_id: id, delta },
            BackendRawEvent::ToolCallDelta { call_id, name, arguments_delta } => ChatEvent::ToolCallDelta {
                request_id: id,
                call_id,
                name,
                arguments_delta,
            },
            BackendRawEvent::ToolCallReady { call } => ChatEvent::ToolCallReady { request_id: id, call },
            BackendRawEvent::Usage { usage } => ChatEvent::Usage { request_id: id, usage },
            BackendRawEvent::Completed { finish_reason } => ChatEvent::Completed {
                request_id: id,
                finish_reason,
            },
            BackendRawEvent::Failed { error } => ChatEvent::Failed { request_id: id, error },
        };
        Ok(event)
    }

    /// Text or tool-call output.
    pub fn is_output_event(event: &ChatEvent) -> (r: bool)
        ensures
            r == (event is TextDelta || event is ToolCallDelta || event is ToolCallReady),
    {
        match event {
            ChatEvent::TextDelta { .. } | ChatEvent::ToolCallDelta { .. }
            | ChatEvent::ToolCallReady { .. } => true,
            _ => false,
        }
    }

    pub fn is_tool_event(event: &ChatEvent) -> (r: bool)
        ensures
            r == (event is ToolCallDelta || event is ToolCallReady),
    {
        match event {
            ChatEvent::ToolCallDelta { .. } | ChatEvent::ToolCallReady { .. } => true,
            _ => false,
        }
    }

    /// The last event of a request.
    pub fn is_terminal_event(event: &ChatEvent) -> (r: bool)
        ensures
            r == (event is Completed || event is Failed),
    {
        match event {
            ChatEvent::Completed { .. } | ChatEvent::Failed { .. } => true,
            _ => false,
        }
    }
}

/// Law: normalizing a request keeps what it asks of tool use. Each tool
/// choice becomes the canonical choice of the same meaning: `auto` stays
/// automatic, `none` forbids tools, `required` still forces a tool call,
/// and a named tool stays that tool; no choice becomes another.
pub proof fn lemma_normalize_keeps_tool_choice(request: ChatRequest, stream: bool, c: CanonicalRequest)
    requires
        canonical_request_of(request, stream, c),
    ensures
        (request.tool_choice is Auto <==> c.tool_choice is Auto),
        (request.tool_choice is NoTool <==> c.tool_choice is NoTool),
        (request.tool_choice is Required <==> c.tool_choice is Required),
        (request.tool_choice matches ToolChoice::Specific { name } ==> c.tool_choice
            == CanonicalToolChoice::Specific { name }),
        (c.tool_choice matches CanonicalToolChoice::Specific { name } ==> request.tool_choice
            == ToolChoice::Specific { name }),
{
}

} // verus!
