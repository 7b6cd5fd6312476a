//! Thread messages, their kinds, and how they convert to and from the
//! messages that are sent to a backend.
use vstd::prelude::*;

use crate::chat_types::{
    copy_parts, copy_tool_calls, ChatMessage, ChatRole, ContentPart, MessageToolCall,
    ToolCallResult,
};
use crate::json::{is_json, json_parses, json_quote, json_quoted, JsonText};

verus! {

#[derive(Debug, Clone, Copy, PartialEq, Eq, Structural)]
pub enum MessageKind {
    System,
    User,
    Assistant,
    ToolCall,
    ToolCallResult,
}

/// What every kind of message has: an id, a creation time and a kind.
pub trait MessageTrait {
    spec fn spec_id(&self) -> Seq<char>;

    spec fn spec_kind(&self) -> MessageKind;

    spec fn spec_created_at_ms(&self) -> u64;

    fn id(&self) -> (r: &str)
        ensures
            r@ == self.spec_id(),
    ;

    fn created_at_ms(&self) -> (t: u64)
        ensures
            t == self.spec_created_at_ms(),
    ;

    fn kind(&self) -> (k: MessageKind)
        ensures
            k == self.spec_kind(),
    ;
}

#[derive(Debug)]
pub struct SystemMessage {
    pub id: String,
    pub created_at_ms: u64,
    pub parts: Vec<ContentPart>,
}

#[derive(Debug)]
pub struct UserMessage {
    pub id: String,
    pub created_at_ms: u64,
    pub parts: Vec<ContentPart>,
}

#[derive(Debug)]
pub struct AssistantMessage {
    pub id: String,
    pub created_at_ms: u64,
    pub parts: Vec<ContentPart>,
    pub tool_calls: Vec<MessageToolCall>,
}

#[derive(Debug, PartialEq, Eq)]
pub struct ToolCallMessage {
    pub id: String,
    pub created_at_ms: u64,
    pub call_id: String,
    pub name: String,
    pub arguments_json: String,
}

#[derive(Debug, PartialEq, Eq)]
pub struct ToolCallResultMessage {
    pub id: String,
    pub created_at_ms: u64,
    pub call_id: String,
    pub name: String,
    pub payload: JsonText,
}

impl MessageTrait for SystemMessage {
    open spec fn spec_id(&self) -> Seq<char> {
        self.id@
    }

    open spec fn spec_kind(&self) -> MessageKind {
        MessageKind::System
    }

    open spec fn spec_created_at_ms(&self) -> u64 {
        self.created_at_ms
    }

    fn id(&self) -> (r: &str) {
        self.id.as_str()
    }

    fn created_at_ms(&self) -> u64 {
        self.created_at_ms
    }

    fn kind(&self) -> (k: MessageKind) {
        MessageKind::System
    }
}

impl MessageTrait for UserMessage {
    open spec fn spec_id(&self) -> Seq<char> {
        self.id@
    }

    open spec fn spec_kind(&self) -> MessageKind {
        MessageKind::User
    }

    open spec fn spec_created_at_ms(&self) -> u64 {
        self.created_at_ms
    }

    fn id(&self) -> (r: &str) {
        self.id.as_str()
    }

    fn created_at_ms(&self) -> u64 {
        self.created_at_ms
    }

    fn kind(&self) -> (k: MessageKind) {
        MessageKind::User
    }
}

impl MessageTrait for AssistantMessage {
    open spec fn spec_id(&self) -> Seq<char> {
        self.id@
    }

    open spec fn spec_kind(&self) -> MessageKind {
        MessageKind::Assistant
    }

    open spec fn spec_created_at_ms(&self) -> u64 {
        self.created_at_ms
    }

    fn id(&self) -> (r: &str) {
        self.id.as_str()
    }

    fn created_at_ms(&self) -> u64 {
        self.created_at_ms
    }

    fn kind(&self) -> (k: MessageKind) {
        MessageKind::Assistant
    }
}

impl MessageTrait for ToolCallMessage {
    open spec fn spec_id(&self) -> Seq<char> {
        self.id@
    }

    open spec fn spec_kind(&self) -> MessageKind {
        MessageKind::ToolCall
    }

    open spec fn spec_created_at_ms(&self) -> u64 {
        self.created_at_ms
    }

    fn id(&self) -> (r: &str) {
        self.id.as_str()
    }

    fn created_at_ms(&self) -> u64 {
        self.created_at_ms
    }

    fn kind(&self) -> (k: MessageKind) {
        MessageKind::ToolCall
    }
}

impl MessageTrait for ToolCallResultMessage {
    open spec fn spec_id(&self) -> Seq<char> {
        self.id@
    }

    open spec fn spec_kind(&self) -> MessageKind {
        MessageKind::ToolCallResult
    }

    open spec fn spec_created_at_ms(&self) -> u64 {
        self.created_at_ms
    }

    fn id(&self) -> (r: &str) {
        self.id.as_str()
    }

    fn created_at_ms(&self) -> u64 {
        self.created_at_ms
    }

    fn kind(&self) -> (k: MessageKind) {
        MessageKind::ToolCallResult
    }
}

#[derive(Debug)]
pub enum Message {
    System(SystemMessage),
    User(UserMessage),
    Assistant(AssistantMessage),
    ToolCall(ToolCallMessage),
    ToolCallResult(ToolCallResultMessage),
}

/// The kind of a message.
pub open spec fn kind_of(m: Message) -> MessageKind {
    match m {
        Message::System(_) => MessageKind::System,
        Message::User(_) => MessageKind::User,
        Message::Assistant(_) => MessageKind::Assistant,
        Message::ToolCall(_) => MessageKind::ToolCall,
        Message::ToolCallResult(_) => MessageKind::ToolCallResult,
    }
}

/// The id of a message.
pub open spec fn id_of(m: Message) -> Seq<char> {
    match m {
        Message::System(x) => x.id@,
        Message::User(x) => x.id@,
        Message::Assistant(x) => x.id@,
        Message::ToolCall(x) => x.id@,
        Message::ToolCallResult(x) => x.id@,
    }
}

impl Message {
    pub fn id(&self) -> (r: &str)
        ensures
            r@ == id_of(*self),
    {
        match self {
            Message::System(msg) => msg.id.as_str(),
            Message::User(msg) => msg.id.as_str(),
            Message::Assistant(msg) => msg.id.as_str(),
            Message::ToolCall(msg) => msg.id.as_str(),
            Message::ToolCallResult(msg) => msg.id.as_str(),
        }
    }

    pub fn kind(&self) -> (k: MessageKind)
        ensures
            k == kind_of(*self),
    {
        match self {
            Message::System(_) => MessageKind::System,
            Message::User(_) => MessageKind::User,
            Message::Assistant(_) => MessageKind::Assistant,
            Message::ToolCall(_) => MessageKind::ToolCall,
            Message::ToolCallResult(_) => MessageKind::ToolCallResult,
        }
    }

    /// Equal field by field, lists compared by their elements.
    pub open spec fn same_as(&self, other: &Message) -> bool {
        match (*self, *other) {
            (Message::System(a), Message::System(b)) => a.id == b.id && a.created_at_ms
                == b.created_at_ms && a.parts@ == b.parts@,
            (Message::User(a), Message::User(b)) => a.id == b.id && a.created_at_ms
                == b.created_at_ms && a.parts@ == b.parts@,
            (Message::Assistant(a), Message::Assistant(b)) => a.id == b.id && a.created_at_ms
                == b.created_at_ms && a.parts@ == b.parts@ && a.tool_calls@ == b.tool_calls@,
            (Message::ToolCall(a), Message::ToolCall(b)) => a == b,
            (Message::ToolCallResult(a), Message::ToolCallResult(b)) => a == b,
            _ => false,
        }
    }

    pub fn duplicate(&self) -> (r: Message)
        ensures
            r.same_as(self),
    {
        match self {
            Message::System(m) => Message::System(
                SystemMessage {
                    id: m.id.clone(),
                    created_at_ms: m.created_at_ms,
                    parts: copy_parts(&m.parts),
                },
            ),
            Message::User(m) => Message::User(
                UserMessage {
                    id: m.id.clone(),
                    created_at_ms: m.created_at_ms,
                    parts: copy_parts(&m.parts),
                },
            ),
            Message::Assistant(m) => Message::Assistant(
                AssistantMessage {
                    id: m.id.clone(),
                    created_at_ms: m.created_at_ms,
                    parts: copy_parts(&m.parts),
                    tool_calls: copy_tool_calls(&m.tool_calls),
                },
            ),
            Message::ToolCall(m) => Message::ToolCall(
                ToolCallMessage {
                    id: m.id.clone(),
                    created_at_ms: m.created_at_ms,
                    call_id: m.call_id.clone(),
                    name: m.name.clone(),
                    arguments_json: m.arguments_json.clone(),
                },
            ),
            Message::ToolCallResult(m) => Message::ToolCallResult(
                ToolCallResultMessage {
                    id: m.id.clone(),
                    created_at_ms: m.created_at_ms,
                    call_id: m.call_id.clone(),
                    name: m.name.clone(),
                    payload: m.payload.duplicate(),
                },
            ),
        }
    }

    /// The message as it is sent to a backend: a tool call becomes an
    /// assistant message with one call and an empty text, a tool result
    /// becomes a tool message with its payload.
    pub fn to_chat_message(&self) -> (c: ChatMessage)
        ensures
            chat_message_of(*self, c),
    {
        match self {
            Message::System(msg) => ChatMessage {
                role: ChatRole::System,
                parts: copy_parts(&msg.parts),
                tool_call_id: None,
                tool_name: None,
                tool_calls: Vec::new(),
            },
            Message::User(msg) => ChatMessage {
                role: ChatRole::User,
                parts: copy_parts(&msg.parts),
                tool_call_id: None,
                tool_name: None,
                tool_calls: Vec::new(),
            },
            Message::Assistant(msg) => ChatMessage {
                role: ChatRole::Assistant,
                parts: copy_parts(&msg.parts),
                tool_call_id: None,
                tool_name: None,
                tool_calls: copy_tool_calls(&msg.tool_calls),
            },
            Message::ToolCall(msg) => {
                let mut parts: Vec<ContentPart> = Vec::new();
                parts.push(ContentPart::Text { text: String::new() });
                let mut calls: Vec<MessageToolCall> = Vec::new();
                calls.push(
                    MessageToolCall {
                        id: msg.call_id.clone(),
                        name: msg.name.clone(),
                        arguments_json: msg.arguments_json.clone(),
                    },
                );
                ChatMessage {
                    role: ChatRole::Assistant,
                    parts,
                    tool_call_id: None,
                    tool_name: None,
                    tool_calls: calls,
                }
            },
            Message::ToolCallResult(msg) => {
                let mut parts: Vec<ContentPart> = Vec::new();
                parts.push(ContentPart::Json { value: msg.payload.duplicate() });
                ChatMessage {
                    role: ChatRole::Tool,
                    parts,
                    tool_call_id: Some(msg.call_id.clone()),
                    tool_name: Some(msg.name.clone()),
                    tool_calls: Vec::new(),
                }
            },
        }
    }

    /// The thread message for a message sent by a caller: one message whose
    /// kind follows the role; a tool message becomes a tool result whose
    /// payload `tool_payload_from_parts` computes. The id and creation time
    /// are the caller's.
    pub fn from_chat_message(message: ChatMessage, id: String, now_ms: u64) -> (r: Vec<Message>)
        ensures
            r@.len() == 1,
            from_chat_message_spec(message, id@, now_ms, r@[0]),
    {
        let mut out: Vec<Message> = Vec::new();
        match message.role {
            ChatRole::System => {
                out.push(
                    Message::System(
                        SystemMessage { id, created_at_ms: now_ms, parts: message.parts },
                    ),
                );
            },
            ChatRole::User => {
                out.push(
                    Message::User(UserMessage { id, created_at_ms: now_ms, parts: message.parts }),
                );
            },
            ChatRole::Assistant => {
                out.push(
                    Message::Assistant(
                        AssistantMessage {
                            id,
                            created_at_ms: now_ms,
                            parts: message.parts,
                            tool_calls: message.tool_calls,
                        },
                    ),
                );
            },
            ChatRole::Tool => {
                let call_id = match message.tool_call_id {
                    Some(c) => c,
                    None => String::from_str("unknown-call"),
                };
                let name = match message.tool_name {
                    Some(n) => n,
                    None => String::from_str("unknown-tool"),
                };
                let payload = tool_payload_from_parts(&message.parts);
                out.push(
                    Message::ToolCallResult(
                        ToolCallResultMessage { id, created_at_ms: now_ms, call_id, name, payload },
                    ),
                );
            },
        }
        out
    }

    /// An assistant message with one text part and no tool call.
    pub fn assistant_text(text: String, id: String, now_ms: u64) -> (m: Message)
        ensures
            m matches Message::Assistant(a) && a.id == id && a.created_at_ms == now_ms
                && a.parts@ == seq![ContentPart::Text { text }] && a.tool_calls@.len() == 0,
    {
        let mut parts: Vec<ContentPart> = Vec::new();
        parts.push(ContentPart::Text { text });
        Message::Assistant(
            AssistantMessage { id, created_at_ms: now_ms, parts, tool_calls: Vec::new() },
        )
    }

    /// The tool-call message for a call that a backend requested.
    pub fn tool_call_from_result(call: &ToolCallResult, id: String, now_ms: u64) -> (m: Message)
        ensures
            m == Message::ToolCall(
                ToolCallMessage {
                    id,
                    created_at_ms: now_ms,
                    call_id: call.id,
                    name: call.name,
                    arguments_json: call.arguments_json,
                },
            ),
    {
        Message::ToolCall(
            ToolCallMessage {
                id,
                created_at_ms: now_ms,
                call_id: call.id.clone(),
                name: call.name.clone(),
                arguments_json: call.arguments_json.clone(),
            },
        )
    }

    /// A tool-result message.
    pub fn tool_call_result(
        call_id: String,
        name: String,
        payload: JsonText,
        id: String,
        now_ms: u64,
    ) -> (m: Message)
        ensures
            m == Message::ToolCallResult(
                ToolCallResultMessage { id, created_at_ms: now_ms, call_id, name, payload },
            ),
    {
        Message::ToolCallResult(
            ToolCallResultMessage { id, created_at_ms: now_ms, call_id, name, payload },
        )
    }
}

/// `c` is the message that `m` is sent to a backend as.
pub open spec fn chat_message_of(m: Message, c: ChatMessage) -> bool {
    match m {
        Message::System(x) => c.role == ChatRole::System && c.parts@ == x.parts@
            && c.tool_call_id is None && c.tool_name is None && c.tool_calls@.len() == 0,
        Message::User(x) => c.role == ChatRole::User && c.parts@ == x.parts@ && c.tool_call_id is None
            && c.tool_name is None && c.tool_calls@.len() == 0,
        Message::Assistant(x) => c.role == ChatRole::Assistant && c.parts@ == x.parts@
            && c.tool_call_id is None && c.tool_name is None && c.tool_calls@ == x.tool_calls@,
        Message::ToolCall(x) => {
            &&& c.role == ChatRole::Assistant
            &&& c.parts@.len() == 1
            &&& (c.parts@[0] matches ContentPart::Text { text } && text@.len() == 0)
            &&& c.tool_call_id is None
            &&& c.tool_name is None
            &&& c.tool_calls@ == seq![
                MessageToolCall { id: x.call_id, name: x.name, arguments_json: x.arguments_json },
            ]
        },
        Message::ToolCallResult(x) => c.role == ChatRole::Tool && c.parts@ == seq![
            ContentPart::Json { value: x.payload },
        ] && c.tool_call_id == Some(x.call_id) && c.tool_name == Some(x.name) && c.tool_calls@.len()
            == 0,
    }
}

/// `m` is the thread message for `c`, with the given id and time.
pub open spec fn from_chat_message_spec(c: ChatMessage, id: Seq<char>, now_ms: u64, m: Message) -> bool {
    match c.role {
        ChatRole::System => (m matches Message::System(x) && x.id@ == id && x.created_at_ms
            == now_ms && x.parts@ == c.parts@),
        ChatRole::User => (m matches Message::User(x) && x.id@ == id && x.created_at_ms == now_ms
            && x.parts@ == c.parts@),
        ChatRole::Assistant => (m matches Message::Assistant(x) && x.id@ == id && x.created_at_ms
            == now_ms && x.parts@ == c.parts@ && x.tool_calls@ == c.tool_calls@),
        ChatRole::Tool => (m matches Message::ToolCallResult(x) && x.id@ == id && x.created_at_ms
            == now_ms && x.call_id@ == opt_or(c.tool_call_id, "unknown-call"@) && x.name@ == opt_or(
            c.tool_name,
            "unknown-tool"@,
        ) && x.payload.text@ == tool_payload_text(c.parts@)),
    }
}

/// The view of an optional text, or `default`.
pub open spec fn opt_or(o: Option<String>, default: Seq<char>) -> Seq<char> {
    match o {
        Some(s) => s@,
        None => default,
    }
}

/// The first JSON part, if there is one.
pub open spec fn first_json_part(parts: Seq<ContentPart>) -> Option<Seq<char>>
    decreases parts.len(),
{
    if parts.len() == 0 {
        None
    } else {
        match parts[0] {
            ContentPart::Json { value } => Some(value.text@),
            _ => first_json_part(parts.drop_first()),
        }
    }
}

/// The texts of the text parts, in order.
pub open spec fn text_parts(parts: Seq<ContentPart>) -> Seq<Seq<char>>
    decreases parts.len(),
{
    if parts.len() == 0 {
        Seq::empty()
    } else {
        let rest = text_parts(parts.drop_last());
        match parts.last() {
            ContentPart::Text { text } => rest.push(text@),
            _ => rest,
        }
    }
}

/// Texts joined with a newline between each two.
pub open spec fn join_lines(texts: Seq<Seq<char>>) -> Seq<char>
    decreases texts.len(),
{
    if texts.len() == 0 {
        Seq::empty()
    } else if texts.len() == 1 {
        texts[0]
    } else {
        join_lines(texts.drop_last()) + "\n"@ + texts.last()
    }
}

/// The payload of a tool message: its first JSON part; else its text parts
/// joined by newlines when they form JSON; else an object that reports the
/// raw text (`{"ok":false,"raw":...}`, keys sorted as `serde_json` writes
/// them).
pub open spec fn tool_payload_text(parts: Seq<ContentPart>) -> Seq<char> {
    match first_json_part(parts) {
        Some(v) => v,
        None => {
            let joined = join_lines(text_parts(parts));
            if is_json(joined) {
                joined
            } else {
                "{\"ok\":false,\"raw\":"@ + json_quoted(joined) + "}"@
            }
        },
    }
}

/// The text parts joined by newlines.
pub fn joined_text_parts(parts: &Vec<ContentPart>) -> (r: String)
    ensures
        r@ == join_lines(text_parts(parts@)),
{
    let mut out = String::new();
    let mut count: usize = 0;
    let mut i: usize = 0;
    while i < parts.len()
        invariant
            i <= parts@.len(),
            out@ == join_lines(text_parts(parts@.subrange(0, i as int))),
            count == text_parts(parts@.subrange(0, i as int)).len(),
            count <= i,
        decreases parts@.len() - i,
    {
        let ghost prev = parts@.subrange(0, i as int);
        let ghost next = parts@.subrange(0, i + 1);
        assert(next.drop_last() =~= prev);
        match &parts[i] {
            ContentPart::Text { text } => {
                if count > 0 {
                    out.append("\n");
                }
                out.append(text.as_str());
                count = count + 1;
                proof {
                    let tp = text_parts(prev);
                    assert(text_parts(next) == tp.push(text@));
                    assert(tp.push(text@).drop_last() =~= tp);
                    if tp.len() == 0 {
                        assert(out@ =~= join_lines(tp.push(text@)));
                    }
                }
            },
            _ => {},
        }
        i = i + 1;
    }
    assert(parts@.subrange(0, parts@.len() as int) =~= parts@);
    out
}

/// The payload of a tool message sent by a caller.
pub fn tool_payload_from_parts(parts: &Vec<ContentPart>) -> (r: JsonText)
    ensures
        r.text@ == tool_payload_text(parts@),
{
    let mut i: usize = 0;
    assert(parts@.subrange(0, parts@.len() as int) =~= parts@);
    while i < parts.len()
        invariant
            i <= parts@.len(),
            first_json_part(parts@) == first_json_part(parts@.subrange(i as int, parts@.len() as int)),
        decreases parts@.len() - i,
    {
        let ghost rest = parts@.subrange(i as int, parts@.len() as int);
        assert(rest.drop_first() =~= parts@.subrange(i + 1, parts@.len() as int));
        match &parts[i] {
            ContentPart::Json { value } => {
                return value.duplicate();
            },
            _ => {},
        }
        i = i + 1;
    }
    let joined = joined_text_parts(parts);
    if json_parses(joined.as_str()) {
        JsonText { text: joined }
    } else {
        let mut text = String::from_str("{\"ok\":false,\"raw\":");
        let quoted = json_quote(joined.as_str());
        text.append(quoted.as_str());
        text.append("}");
        JsonText { text }
    }
}

/// The payload of a failed tool execution: `{"error":...,"ok":false,"tool":...}`.
pub open spec fn tool_error_payload(tool: Seq<char>, error: Seq<char>) -> Seq<char> {
    "{\"error\":"@ + json_quoted(error) + ",\"ok\":false,\"tool\":"@ + json_quoted(tool) + "}"@
}

/// The tool-result message for a call that the executor ran.
pub fn tool_result_from_execution(
    call: &ToolCallResult,
    payload: JsonText,
    id: String,
    now_ms: u64,
) -> (m: Message)
    ensures
        m == Message::ToolCallResult(
            ToolCallResultMessage {
                id,
                created_at_ms: now_ms,
                call_id: call.id,
                name: call.name,
                payload,
            },
        ),
{
    Message::ToolCallResult(
        ToolCallResultMessage {
            id,
            created_at_ms: now_ms,
            call_id: call.id.clone(),
            name: call.name.clone(),
            payload,
        },
    )
}

/// The tool-result message for a call that failed with `error`.
pub fn tool_result_error(call: &ToolCallResult, error: &str, id: String, now_ms: u64) -> (m: Message)
    ensures
        m matches Message::ToolCallResult(r) && r.id == id && r.created_at_ms == now_ms && r.call_id
            == call.id && r.name == call.name && r.payload.text@ == tool_error_payload(
            call.name@,
            error@,
        ),
{
    let mut text = String::from_str("{\"error\":");
    text.append(json_quote(error).as_str());
    text.append(",\"ok\":false,\"tool\":");
    text.append(json_quote(call.name.as_str()).as_str());
    text.append("}");
    Message::ToolCallResult(
        ToolCallResultMessage {
            id,
            created_at_ms: now_ms,
            call_id: call.id.clone(),
            name: call.name.clone(),
            payload: JsonText { text },
        },
    )
}

/// The current time in milliseconds since the Unix epoch, 0 if the clock
/// is before it. It reads the clock, so nothing is claimed of it.
#[verifier::external_body]
pub fn current_timestamp_ms() -> (r: u64) {
    match std::time::SystemTime::now().duration_since(std::time::UNIX_EPOCH) {
        Ok(d) => d.as_millis() as u64,
        Err(_) => 0,
    }
}

} // verus!
