//! The OpenAI Responses wire format: the request body built from a turn,
//! and what is read from a reply (its text, tool calls, finish reason and
//! usage).
use vstd::prelude::*;

use crate::chat_capabilities::TurnPayload;
use crate::chat_replies::{call_is, usage_is};
use crate::chat_types::{role_to_wire, role_wire, ChatMessage, ChatRole, ContentPart, FinishReason, MessageToolCall, OutputMode, ToolCallResult, ToolCallStatus, UsageStats};
use crate::chat_wire::{part_text, part_to_wire_text};
use crate::copilot::joined_lines;
use crate::error::{plain, plain_error, GatewayError, GatewayErrorKind};
use crate::json::JsonText;
use crate::json_tree::{array_value, as_array, as_str, as_u64, get, member, str_value, u64_value, JsonNode};
use crate::replies::EventView;
use crate::text::{decimal, decimal_seq, str_eq};
use crate::tool::ChatToolDefinition;
use crate::types::BackendCapabilities;
use crate::wire_out::{array, fields_view, items_view, jstr, jview, object, push_field, push_item, JView, JsonField, JsonOut};

verus! {

/// What the Responses API can do by default: tool calls, in parallel, and
/// JSON output, without streaming.
pub fn default_responses_capabilities() -> (c: BackendCapabilities)
    ensures
        !c.streaming,
        c.tool_calls,
        c.parallel_tool_calls,
        c.json_mode,
        c.json_schema_mode,
        !c.vision,
        !c.resumable_streaming,
{
    BackendCapabilities {
        streaming: false,
        tool_calls: true,
        parallel_tool_calls: true,
        json_mode: true,
        json_schema_mode: true,
        vision: false,
        resumable_streaming: false,
    }
}

/// Whether tool calls may run in parallel: as the backend's profile says,
/// else by default.
pub fn parallel_tool_calls_enabled(profile_capabilities: Option<&BackendCapabilities>) -> (r: bool)
    ensures
        r == match profile_capabilities {
            Some(c) => c.parallel_tool_calls,
            None => true,
        },
{
    match profile_capabilities {
        Some(c) => c.parallel_tool_calls,
        None => default_responses_capabilities().parallel_tool_calls,
    }
}

/// The text of parts, one per line.
pub open spec fn parts_lines(ps: Seq<ContentPart>) -> Seq<char> {
    joined_lines(ps.map_values(|p: ContentPart| part_text(p)))
}

/// The text of parts, one per line.
pub fn parts_to_text(parts: &Vec<ContentPart>) -> (r: String)
    ensures
        r@ == parts_lines(parts@),
{
    let mut out = String::new();
    let mut i: usize = 0;
    while i < parts.len()
        invariant
            i <= parts@.len(),
            out@ == joined_lines(parts@.take(i as int).map_values(|p: ContentPart| part_text(p))),
        decreases parts@.len() - i,
    {
        let ghost ts = parts@.take(i as int).map_values(|p: ContentPart| part_text(p));
        let t = part_to_wire_text(&parts[i]);
        if i > 0 {
            out.append("\n");
        }
        out.append(t.as_str());
        proof {
            let ts1 = parts@.take(i + 1).map_values(|p: ContentPart| part_text(p));
            assert(ts1 =~= ts.push(part_text(parts@[i as int])));
            assert(ts1.drop_last() =~= ts);
        }
        i = i + 1;
    }
    assert(parts@.take(parts@.len() as int) =~= parts@);
    out
}

/// A message input item.
pub open spec fn message_item_view(role: Seq<char>, content: Seq<char>) -> JView {
    JView::Object(
        seq![("type"@, JView::Str("message"@)), ("role"@, JView::Str(role)), ("content"@, JView::Str(content))],
    )
}

/// A function call input item.
pub open spec fn function_call_item_view(c: MessageToolCall) -> JView {
    JView::Object(
        seq![
            ("type"@, JView::Str("function_call"@)),
            ("call_id"@, JView::Str(c.id@)),
            ("name"@, JView::Str(c.name@)),
            ("arguments"@, JView::Str(c.arguments_json@)),
        ],
    )
}

/// The input items of a message: a message item for a system or user
/// message; for an assistant message its text, where there is some, then
/// its calls; for a tool message its output, which needs the call's id.
pub open spec fn input_items(m: ChatMessage) -> Option<Seq<JView>> {
    let text = parts_lines(m.parts@);
    match m.role {
        ChatRole::System | ChatRole::User => Some(seq![message_item_view(role_wire(m.role), text)]),
        ChatRole::Assistant => Some(
            (if text.len() > 0 {
                seq![message_item_view("assistant"@, text)]
            } else {
                Seq::empty()
            }) + m.tool_calls@.map_values(|c: MessageToolCall| function_call_item_view(c)),
        ),
        ChatRole::Tool => match m.tool_call_id {
            Some(id) => Some(
                seq![
                    JView::Object(
                        seq![
                            ("type"@, JView::Str("function_call_output"@)),
                            ("call_id"@, JView::Str(id@)),
                            ("output"@, JView::Str(text)),
                        ],
                    ),
                ],
            ),
            None => None,
        },
    }
}

fn message_item(role: &str, content: &str) -> (o: JsonOut)
    ensures
        jview(o) == message_item_view(role@, content@),
{
    let mut fs: Vec<JsonField> = Vec::new();
    push_field(&mut fs, "type", jstr("message"));
    push_field(&mut fs, "role", jstr(role));
    push_field(&mut fs, "content", jstr(content));
    assert(fields_view(fs@) =~= seq![
        ("type"@, JView::Str("message"@)),
        ("role"@, JView::Str(role@)),
        ("content"@, JView::Str(content@)),
    ]);
    object(fs)
}

fn function_call_item(call: &MessageToolCall) -> (o: JsonOut)
    ensures
        jview(o) == function_call_item_view(*call),
{
    let mut fs: Vec<JsonField> = Vec::new();
    push_field(&mut fs, "type", jstr("function_call"));
    push_field(&mut fs, "call_id", jstr(call.id.as_str()));
    push_field(&mut fs, "name", jstr(call.name.as_str()));
    push_field(&mut fs, "arguments", jstr(call.arguments_json.as_str()));
    assert(fields_view(fs@) =~= seq![
        ("type"@, JView::Str("function_call"@)),
        ("call_id"@, JView::Str(call.id@)),
        ("name"@, JView::Str(call.name@)),
        ("arguments"@, JView::Str(call.arguments_json@)),
    ]);
    object(fs)
}

/// Adds the input items of `message` to `items`; a tool message without a
/// call id is refused.
fn push_input_items(items: &mut Vec<JsonOut>, message: &ChatMessage) -> (r: Result<(), GatewayError>)
    ensures
        match input_items(*message) {
            Some(v) => r is Ok && items_view(final(items)@) == items_view(old(items)@) + v,
            None => r matches Err(e) && plain_error(
                e,
                GatewayErrorKind::InvalidRequest,
                "responses tool message requires tool_call_id"@,
            ),
        },
{
    let ghost i0 = items_view(items@);
    let text = parts_to_text(&message.parts);
    match message.role {
        ChatRole::System | ChatRole::User => {
            push_item(items, message_item(role_to_wire(&message.role), text.as_str()));
            assert(items_view(items@) =~= i0 + seq![message_item_view(role_wire(message.role), text@)]);
            Ok(())
        },
        ChatRole::Assistant => {
            if text.as_str().unicode_len() > 0 {
                push_item(items, message_item("assistant", text.as_str()));
            }
            let ghost i1 = items_view(items@);
            assert(i1 =~= i0 + (if text@.len() > 0 {
                seq![message_item_view("assistant"@, text@)]
            } else {
                Seq::<JView>::empty()
            }));
            let mut k: usize = 0;
            while k < message.tool_calls.len()
                invariant
                    k <= message.tool_calls@.len(),
                    items_view(items@) == i1 + message.tool_calls@.take(k as int).map_values(
                        |c: MessageToolCall| function_call_item_view(c),
                    ),
                decreases message.tool_calls@.len() - k,
            {
                push_item(items, function_call_item(&message.tool_calls[k]));
                proof {
                    assert(message.tool_calls@.take(k + 1).map_values(|c: MessageToolCall| function_call_item_view(c))
                        =~= message.tool_calls@.take(k as int).map_values(
                        |c: MessageToolCall| function_call_item_view(c),
                    ).push(function_call_item_view(message.tool_calls@[k as int])));
                }
                k = k + 1;
            }
            assert(message.tool_calls@.take(message.tool_calls@.len() as int) =~= message.tool_calls@);
            assert(items_view(items@) =~= i0 + input_items(*message)->0);
            Ok(())
        },
        ChatRole::Tool => {
            match &message.tool_call_id {
                Some(id) => {
                    let mut fs: Vec<JsonField> = Vec::new();
                    push_field(&mut fs, "type", jstr("function_call_output"));
                    push_field(&mut fs, "call_id", jstr(id.as_str()));
                    push_field(&mut fs, "output", jstr(text.as_str()));
                    let ghost fv = fields_view(fs@);
                    assert(fv =~= seq![
                        ("type"@, JView::Str("function_call_output"@)),
                        ("call_id"@, JView::Str(id@)),
                        ("output"@, JView::Str(text@)),
                    ]);
                    push_item(items, object(fs));
                    assert(items_view(items@) =~= i0 + seq![JView::Object(fv)]);
                    Ok(())
                },
                None => Err(plain(GatewayErrorKind::InvalidRequest, "responses tool message requires tool_call_id")),
            }
        },
    }
}

/// How many system messages the first `n` of `ms` hold.
pub open spec fn system_count(ms: Seq<ChatMessage>, n: int) -> nat
    decreases n,
{
    if n <= 0 {
        0
    } else {
        system_count(ms, n - 1) + if ms[n - 1].role == ChatRole::System {
            1nat
        } else {
            0nat
        }
    }
}

/// The input items of the first `n` messages; where `single_system`, the
/// system message goes to the instructions instead. `None` where a message
/// is refused.
pub open spec fn responses_input(ms: Seq<ChatMessage>, n: int, single_system: bool) -> Option<Seq<JView>>
    decreases n,
{
    if n <= 0 {
        Some(Seq::empty())
    } else {
        match responses_input(ms, n - 1, single_system) {
            None => None,
            Some(prev) => if ms[n - 1].role == ChatRole::System && single_system {
                Some(prev)
            } else {
                match input_items(ms[n - 1]) {
                    Some(v) => Some(prev + v),
                    None => None,
                }
            },
        }
    }
}

/// The instructions: the text of the system message where there is just
/// one.
pub open spec fn responses_instructions(ms: Seq<ChatMessage>, n: int, single_system: bool) -> Option<
    Seq<char>,
>
    decreases n,
{
    if n <= 0 {
        None
    } else if ms[n - 1].role == ChatRole::System && single_system {
        Some(parts_lines(ms[n - 1].parts@))
    } else {
        responses_instructions(ms, n - 1, single_system)
    }
}

fn count_system(messages: &Vec<ChatMessage>) -> (r: usize)
    ensures
        r == system_count(messages@, messages@.len() as int),
{
    let mut r: usize = 0;
    let mut i: usize = 0;
    while i < messages.len()
        invariant
            i <= messages@.len(),
            r == system_count(messages@, i as int),
            r <= i,
        decreases messages@.len() - i,
    {
        if messages[i].role == ChatRole::System {
            r = r + 1;
        }
        i = i + 1;
    }
    r
}

/// The instructions and input items of the messages.
pub fn messages_to_responses(messages: &Vec<ChatMessage>) -> (r: Result<(Option<String>, Vec<JsonOut>), GatewayError>)
    ensures
        ({
            let n = messages@.len() as int;
            let single = system_count(messages@, n) == 1;
            match responses_input(messages@, n, single) {
                Some(v) => r matches Ok((ins, items)) && items_view(items@) == v && match ins {
                    Some(s) => responses_instructions(messages@, n, single) == Some(s@),
                    None => responses_instructions(messages@, n, single) is None,
                },
                None => r matches Err(e) && plain_error(
                    e,
                    GatewayErrorKind::InvalidRequest,
                    "responses tool message requires tool_call_id"@,
                ),
            }
        }),
{
    let single = count_system(messages) == 1;
    let mut instructions: Option<String> = None;
    let mut items: Vec<JsonOut> = Vec::new();
    let mut i: usize = 0;
    while i < messages.len()
        invariant
            i <= messages@.len(),
            single == (system_count(messages@, messages@.len() as int) == 1),
            responses_input(messages@, i as int, single) == Some(items_view(items@)),
            match instructions {
                Some(s) => responses_instructions(messages@, i as int, single) == Some(s@),
                None => responses_instructions(messages@, i as int, single) is None,
            },
        decreases messages@.len() - i,
    {
        let m = &messages[i];
        if m.role == ChatRole::System && single {
            instructions = Some(parts_to_text(&m.parts));
        } else {
            match push_input_items(&mut items, m) {
                Ok(()) => {},
                Err(e) => {
                    proof {
                        lemma_input_stays_refused(messages@, i as int + 1, messages@.len() as int, single);
                    }
                    return Err(e);
                },
            }
        }
        i = i + 1;
    }
    Ok((instructions, items))
}

proof fn lemma_input_stays_refused(ms: Seq<ChatMessage>, k: int, n: int, single: bool)
    requires
        0 < k <= n,
        responses_input(ms, k, single) is None,
    ensures
        responses_input(ms, n, single) is None,
    decreases n - k,
{
    if k < n {
        lemma_input_stays_refused(ms, k + 1, n, single);
        assert(responses_input(ms, k + 1, single) is None);
    }
}

/// A tool in the Responses format: its description only where it has
/// one.
pub open spec fn responses_tool_view(t: ChatToolDefinition) -> JView {
    JView::Object(
        seq![("type"@, JView::Str("function"@)), ("name"@, JView::Str(t.name@))] + (match t.description {
            Some(d) => seq![("description"@, JView::Str(d@))],
            None => Seq::empty(),
        }) + seq![("parameters"@, JView::Raw(t.input_schema.text@))],
    )
}

/// The tools in the Responses format.
pub fn tools_to_responses(tools: &Vec<ChatToolDefinition>) -> (r: Vec<JsonOut>)
    ensures
        items_view(r@) == tools@.map_values(|t: ChatToolDefinition| responses_tool_view(t)),
{
    let mut r: Vec<JsonOut> = Vec::new();
    let mut i: usize = 0;
    while i < tools.len()
        invariant
            i <= tools@.len(),
            items_view(r@) == tools@.take(i as int).map_values(|t: ChatToolDefinition| responses_tool_view(t)),
        decreases tools@.len() - i,
    {
        let tool = &tools[i];
        let mut fs: Vec<JsonField> = Vec::new();
        push_field(&mut fs, "type", jstr("function"));
        push_field(&mut fs, "name", jstr(tool.name.as_str()));
        match &tool.description {
            Some(d) => {
                push_field(&mut fs, "description", jstr(d.as_str()));
            },
            None => {},
        }
        push_field(&mut fs, "parameters", JsonOut::Raw(tool.input_schema.duplicate()));
        assert(fields_view(fs@) =~= seq![("type"@, JView::Str("function"@)), ("name"@, JView::Str(tool.name@))] + (match tool.description {
            Some(d) => seq![("description"@, JView::Str(d@))],
            None => Seq::empty(),
        }) + seq![("parameters"@, JView::Raw(tool.input_schema.text@))]);
        push_item(&mut r, object(fs));
        proof {
            assert(tools@.take(i + 1).map_values(|t: ChatToolDefinition| responses_tool_view(t)) =~= tools@.take(
                i as int,
            ).map_values(|t: ChatToolDefinition| responses_tool_view(t)).push(responses_tool_view(tools@[i as int])));
        }
        i = i + 1;
    }
    assert(tools@.take(tools@.len() as int) =~= tools@);
    r
}

/// The member that carries the output mode in the Responses format.
pub open spec fn text_format_fields(mode: OutputMode) -> Seq<(Seq<char>, JView)> {
    match mode {
        OutputMode::Text => Seq::empty(),
        OutputMode::JsonObject => seq![
            ("text"@, JView::Object(seq![("format"@, JView::Object(seq![("type"@, JView::Str("json_object"@))]))])),
        ],
        OutputMode::JsonSchema { name, schema, strict } => seq![
            (
                "text"@,
                JView::Object(
                    seq![
                        (
                            "format"@,
                            JView::Object(
                                seq![
                                    ("type"@, JView::Str("json_schema"@)),
                                    ("name"@, JView::Str(name@)),
                                    ("schema"@, JView::Raw(schema.text@)),
                                    ("strict"@, JView::Bool(strict)),
                                ],
                            ),
                        ),
                    ],
                ),
            ),
        ],
    }
}

fn push_text_format(fs: &mut Vec<JsonField>, mode: &OutputMode)
    ensures
        fields_view(final(fs)@) == fields_view(old(fs)@) + text_format_fields(*mode),
{
    let ghost f0 = fields_view(fs@);
    let mut format: Vec<JsonField> = Vec::new();
    match mode {
        OutputMode::Text => {
            assert(fields_view(fs@) =~= f0 + text_format_fields(*mode));
            return;
        },
        OutputMode::JsonObject => {
            push_field(&mut format, "type", jstr("json_object"));
            assert(fields_view(format@) =~= seq![("type"@, JView::Str("json_object"@))]);
        },
        OutputMode::JsonSchema { name, schema, strict } => {
            push_field(&mut format, "type", jstr("json_schema"));
            push_field(&mut format, "name", jstr(name.as_str()));
            push_field(&mut format, "schema", JsonOut::Raw(schema.duplicate()));
            push_field(&mut format, "strict", JsonOut::Bool(*strict));
            assert(fields_view(format@) =~= seq![
                ("type"@, JView::Str("json_schema"@)),
                ("name"@, JView::Str(name@)),
                ("schema"@, JView::Raw(schema.text@)),
                ("strict"@, JView::Bool(*strict)),
            ]);
        },
    }
    let ghost fv = fields_view(format@);
    let mut text: Vec<JsonField> = Vec::new();
    push_field(&mut text, "format", object(format));
    let ghost tv = fields_view(text@);
    assert(tv =~= seq![("format"@, JView::Object(fv))]);
    push_field(fs, "text", object(text));
    assert(fields_view(fs@) =~= f0 + text_format_fields(*mode));
}

/// The body of a Responses request: the model, the input and no storing;
/// the instructions where there are some; the tools, chosen freely and in
/// parallel as allowed, where there are some; the output mode; and the
/// output token limit.
pub open spec fn responses_body_view(
    model: Seq<char>,
    p: TurnPayload,
    allow_parallel_tool_calls: bool,
    instructions: Option<Seq<char>>,
    input: Seq<JView>,
) -> JView {
    JView::Object(
        seq![("model"@, JView::Str(model)), ("input"@, JView::Array(input)), ("store"@, JView::Bool(false))]
            + (match instructions {
            Some(s) => seq![("instructions"@, JView::Str(s))],
            None => Seq::empty(),
        }) + (if p.tools@.len() > 0 {
            seq![
                ("tools"@, JView::Array(p.tools@.map_values(|t: ChatToolDefinition| responses_tool_view(t)))),
                ("tool_choice"@, JView::Str("auto"@)),
                ("parallel_tool_calls"@, JView::Bool(allow_parallel_tool_calls)),
            ]
        } else {
            Seq::empty()
        }) + text_format_fields(p.output_mode) + match p.limits.max_output_tokens {
            Some(m) => seq![("max_output_tokens"@, JView::Number(m))],
            None => Seq::empty(),
        },
    )
}

/// The body of a Responses request; a tool message without a call id is
/// refused.
pub fn build_request_body(model: &str, payload: &TurnPayload, allow_parallel_tool_calls: bool) -> (r: Result<
    JsonOut,
    GatewayError,
>)
    ensures
        ({
            let ms = payload.messages@;
            let n = ms.len() as int;
            let single = system_count(ms, n) == 1;
            match responses_input(ms, n, single) {
                Some(v) => r matches Ok(o) && jview(o) == responses_body_view(
                    model@,
                    *payload,
                    allow_parallel_tool_calls,
                    responses_instructions(ms, n, single),
                    v,
                ),
                None => r matches Err(e) && plain_error(
                    e,
                    GatewayErrorKind::InvalidRequest,
                    "responses tool message requires tool_call_id"@,
                ),
            }
        }),
{
    let (instructions, input) = match messages_to_responses(&payload.messages) {
        Ok(pair) => pair,
        Err(e) => {
            return Err(e);
        },
    };
    let mut fs: Vec<JsonField> = Vec::new();
    push_field(&mut fs, "model", jstr(model));
    let ghost iv = items_view(input@);
    push_field(&mut fs, "input", array(input));
    push_field(&mut fs, "store", JsonOut::Bool(false));
    let ghost f0 = fields_view(fs@);
    let ghost ins = crate::error::opt_view(instructions);
    match instructions {
        Some(s) => {
            push_field(&mut fs, "instructions", jstr(s.as_str()));
        },
        None => {},
    }
    let ghost f1 = fields_view(fs@);
    if payload.tools.len() > 0 {
        let tools = tools_to_responses(&payload.tools);
        push_field(&mut fs, "tools", array(tools));
        push_field(&mut fs, "tool_choice", jstr("auto"));
        push_field(&mut fs, "parallel_tool_calls", JsonOut::Bool(allow_parallel_tool_calls));
    }
    let ghost f2 = fields_view(fs@);
    push_text_format(&mut fs, &payload.output_mode);
    let ghost f3 = fields_view(fs@);
    match payload.limits.max_output_tokens {
        Some(m) => {
            push_field(&mut fs, "max_output_tokens", JsonOut::Number(m));
        },
        None => {},
    }
    proof {
        let p = *payload;
        assert(f0 =~= seq![("model"@, JView::Str(model@)), ("input"@, JView::Array(iv)), ("store"@, JView::Bool(false))]);
        assert(f1 =~= f0 + (match ins {
            Some(s) => seq![("instructions"@, JView::Str(s))],
            None => Seq::empty(),
        }));
        assert(f2 =~= f1 + (if p.tools@.len() > 0 {
            seq![
                ("tools"@, JView::Array(p.tools@.map_values(|t: ChatToolDefinition| responses_tool_view(t)))),
                ("tool_choice"@, JView::Str("auto"@)),
                ("parallel_tool_calls"@, JView::Bool(allow_parallel_tool_calls)),
            ]
        } else {
            Seq::empty()
        }));
        assert(fields_view(fs@) =~= f3 + (match p.limits.max_output_tokens {
            Some(m) => seq![("max_output_tokens"@, JView::Number(m))],
            None => Seq::empty(),
        }));
    }
    Ok(object(fs))
}

/// The text of a content entry that is output text, else nothing.
pub open spec fn content_text(c: JsonNode) -> Seq<char> {
    let t = str_value(member(Some(c), "type"@));
    if t == Some("output_text"@) || t == Some("text"@) {
        match str_value(member(Some(c), "text"@)) {
            Some(s) => s,
            None => Seq::empty(),
        }
    } else {
        Seq::empty()
    }
}

/// The output text of the first `n` content entries, joined.
pub open spec fn contents_text(cs: Seq<JsonNode>, n: int) -> Seq<char>
    decreases n,
{
    if n <= 0 {
        Seq::empty()
    } else {
        contents_text(cs, n - 1) + content_text(cs[n - 1])
    }
}

/// The output text of an output item: that of its content, for a message.
pub open spec fn item_text(item: JsonNode) -> Seq<char> {
    if str_value(member(Some(item), "type"@)) == Some("message"@) {
        match array_value(member(Some(item), "content"@)) {
            Some(cs) => contents_text(cs, cs.len() as int),
            None => Seq::empty(),
        }
    } else {
        Seq::empty()
    }
}

/// The output text of the first `n` output items, joined.
pub open spec fn items_text(items: Seq<JsonNode>, n: int) -> Seq<char>
    decreases n,
{
    if n <= 0 {
        Seq::empty()
    } else {
        items_text(items, n - 1) + item_text(items[n - 1])
    }
}

fn content_entry_text(c: &JsonNode) -> (r: &str)
    ensures
        r@ == content_text(*c),
{
    let n = Some(c);
    let t = as_str(get(n, "type"));
    let is_text = match t {
        Some(t) => str_eq(t, "output_text") || str_eq(t, "text"),
        None => false,
    };
    if is_text {
        match as_str(get(n, "text")) {
            Some(s) => s,
            None => {
                proof {
                    reveal_strlit("");
                    assert(""@ =~= Seq::<char>::empty());
                }
                ""
            },
        }
    } else {
        proof {
            reveal_strlit("");
            assert(""@ =~= Seq::<char>::empty());
        }
        ""
    }
}

/// The output text of the output items: the text entries of the content of
/// each message item, joined.
pub fn parse_output_text(items: &Vec<JsonNode>) -> (r: String)
    ensures
        r@ == items_text(items@, items@.len() as int),
{
    let mut out = String::new();
    let mut i: usize = 0;
    while i < items.len()
        invariant
            i <= items@.len(),
            out@ == items_text(items@, i as int),
        decreases items@.len() - i,
    {
        let item = Some(&items[i]);
        let is_message = match as_str(get(item, "type")) {
            Some(t) => str_eq(t, "message"),
            None => false,
        };
        let ghost before = out@;
        if is_message {
            match as_array(get(item, "content")) {
                Some(cs) => {
                    let mut k: usize = 0;
                    while k < cs.len()
                        invariant
                            k <= cs@.len(),
                            out@ == before + contents_text(cs@, k as int),
                        decreases cs@.len() - k,
                    {
                        let t = content_entry_text(&cs[k]);
                        out.append(t);
                        k = k + 1;
                    }
                },
                None => {
                    assert(out@ =~= before + Seq::<char>::empty());
                },
            }
        } else {
            assert(out@ =~= before + Seq::<char>::empty());
        }
        i = i + 1;
    }
    out
}

/// The output item is a function call.
pub open spec fn is_function_call(item: JsonNode) -> bool {
    str_value(member(Some(item), "type"@)) == Some("function_call"@)
}

/// The function calls among the first `n` output items.
pub open spec fn function_calls(items: Seq<JsonNode>, n: int) -> Seq<JsonNode>
    decreases n,
{
    if n <= 0 {
        Seq::empty()
    } else if is_function_call(items[n - 1]) {
        function_calls(items, n - 1).push(items[n - 1])
    } else {
        function_calls(items, n - 1)
    }
}

/// The call that the function call item `item`, the `index`-th call,
/// stands for: its call id, else its id, else a numbered one; its name,
/// else "unknown_tool"; its arguments as given where they are a string,
/// else as JSON text, else "{}".
pub open spec fn responses_call_view(item: JsonNode, index: int) -> EventView {
    let a = member(Some(item), "arguments"@);
    EventView::CallReady(
        match str_value(member(Some(item), "call_id"@)) {
            Some(s) => s,
            None => match str_value(member(Some(item), "id"@)) {
                Some(s) => s,
                None => "call_"@ + decimal_seq(index as nat),
            },
        },
        match str_value(member(Some(item), "name"@)) {
            Some(s) => s,
            None => "unknown_tool"@,
        },
        match a {
            Some(n) => match str_value(a) {
                Some(s) => s,
                None => n.text@,
            },
            None => "{}"@,
        },
    )
}

/// The tool calls of the output items, numbered among themselves.
pub fn parse_tool_calls(items: &Vec<JsonNode>) -> (r: Vec<ToolCallResult>)
    ensures
        r@.len() == function_calls(items@, items@.len() as int).len(),
        forall|i: int|
            0 <= i < r@.len() ==> call_is(
                #[trigger] r@[i],
                responses_call_view(function_calls(items@, items@.len() as int)[i], i),
            ),
{
    let mut r: Vec<ToolCallResult> = Vec::new();
    let mut i: usize = 0;
    while i < items.len()
        invariant
            i <= items@.len(),
            r@.len() == function_calls(items@, i as int).len(),
            forall|k: int|
                0 <= k < r@.len() ==> call_is(
                    #[trigger] r@[k],
                    responses_call_view(function_calls(items@, i as int)[k], k),
                ),
        decreases items@.len() - i,
    {
        let item = Some(&items[i]);
        let is_call = match as_str(get(item, "type")) {
            Some(t) => str_eq(t, "function_call"),
            None => false,
        };
        if is_call {
            let index = r.len();
            let id = match as_str(get(item, "call_id")) {
                Some(s) => String::from_str(s),
                None => match as_str(get(item, "id")) {
                    Some(s) => String::from_str(s),
                    None => {
                        let mut s = String::from_str("call_");
                        let digits = decimal(index as u64);
                        s.append(digits.as_str());
                        s
                    },
                },
            };
            let name = match as_str(get(item, "name")) {
                Some(s) => String::from_str(s),
                None => String::from_str("unknown_tool"),
            };
            let a = get(item, "arguments");
            let arguments_json = match a {
                Some(n) => match as_str(a) {
                    Some(s) => String::from_str(s),
                    None => n.text.clone(),
                },
                None => String::from_str("{}"),
            };
            let ghost before = r@;
            r.push(ToolCallResult { id, name, arguments_json, status: ToolCallStatus::Ready });
            proof {
                let fc = function_calls(items@, i + 1);
                assert(fc == function_calls(items@, i as int).push(items@[i as int]));
                assert forall|k: int| 0 <= k < r@.len() implies call_is(#[trigger] r@[k], responses_call_view(fc[k], k)) by {
                    if k < before.len() {
                        assert(r@[k] == before[k]);
                    }
                }
            }
        }
        i = i + 1;
    }
    r
}

/// The finish reason of a reply: tool calls where it made some; else by its
/// status: a normal stop when completed or not given, the length limit or
/// the given reason when incomplete ("incomplete" where none is given),
/// and any other status as it is.
pub open spec fn responses_finish_is(payload: JsonNode, has_tool_calls: bool, r: FinishReason) -> bool {
    if has_tool_calls {
        r == FinishReason::ToolCalls
    } else {
        match str_value(member(Some(payload), "status"@)) {
            Some(s) => if s == "completed"@ {
                r == FinishReason::Stop
            } else if s == "incomplete"@ {
                match str_value(member(member(Some(payload), "incomplete_details"@), "reason"@)) {
                    Some(x) => if x == "max_output_tokens"@ {
                        r == FinishReason::Length
                    } else {
                        r matches FinishReason::Other(o) && o@ == x
                    },
                    None => r matches FinishReason::Other(o) && o@ == "incomplete"@,
                }
            } else {
                r matches FinishReason::Other(o) && o@ == s
            },
            None => r == FinishReason::Stop,
        }
    }
}

/// The finish reason of a reply.
pub fn parse_finish_reason(payload: &JsonNode, has_tool_calls: bool) -> (r: FinishReason)
    ensures
        responses_finish_is(*payload, has_tool_calls, r),
{
    if has_tool_calls {
        return FinishReason::ToolCalls;
    }
    let p = Some(payload);
    match as_str(get(p, "status")) {
        Some(s) => {
            if str_eq(s, "completed") {
                FinishReason::Stop
            } else if str_eq(s, "incomplete") {
                match as_str(get(get(p, "incomplete_details"), "reason")) {
                    Some(x) => if str_eq(x, "max_output_tokens") {
                        FinishReason::Length
                    } else {
                        FinishReason::Other(String::from_str(x))
                    },
                    None => FinishReason::Other(String::from_str("incomplete")),
                }
            } else {
                FinishReason::Other(String::from_str(s))
            }
        },
        None => FinishReason::Stop,
    }
}

/// The token counts of a Responses `usage` object.
pub open spec fn responses_usage_view(u: JsonNode) -> EventView {
    EventView::Usage(
        u64_value(member(Some(u), "input_tokens"@)),
        u64_value(member(Some(u), "output_tokens"@)),
        u64_value(member(Some(u), "total_tokens"@)),
        Some(u.text@),
    )
}

/// The token counts of a Responses `usage` object.
pub fn parse_usage(usage: &JsonNode) -> (r: UsageStats)
    ensures
        usage_is(r, responses_usage_view(*usage)),
{
    let u = Some(usage);
    UsageStats {
        input_tokens: as_u64(get(u, "input_tokens")),
        output_tokens: as_u64(get(u, "output_tokens")),
        total_tokens: as_u64(get(u, "total_tokens")),
        provider_usage_raw: Some(JsonText { text: usage.text.clone() }),
    }
}

/// What is read from a whole Responses reply.
#[derive(Debug)]
pub struct ResponsesReply {
    pub output_text: String,
    pub tool_calls: Vec<ToolCallResult>,
    pub usage: Option<UsageStats>,
    pub finish_reason: FinishReason,
}

/// An error of `kind` attributed to the backend `backend_id`, not
/// retryable.
pub open spec fn backend_error(err: GatewayError, kind: GatewayErrorKind, message: Seq<char>, backend_id: Seq<char>) -> bool {
    &&& err.kind == kind
    &&& err.message@ == message
    &&& !err.retryable
    &&& crate::error::opt_view(err.backend_id) == Some(backend_id)
    &&& err.provider_code is None
    &&& err.provider_http_status is None
}

/// The reported error of a reply, where it has a non-null one.
pub open spec fn reported_error(payload: JsonNode) -> Option<JsonNode> {
    match member(Some(payload), "error"@) {
        Some(e) => if e.value is Null {
            None
        } else {
            Some(e)
        },
        None => None,
    }
}

/// The output items of a reply (none where it lists none).
pub open spec fn output_items(payload: JsonNode) -> Seq<JsonNode> {
    match array_value(member(Some(payload), "output"@)) {
        Some(a) => a,
        None => Seq::empty(),
    }
}

/// The output text of a reply: that of its items, else its `output_text`.
pub open spec fn reply_text(payload: JsonNode) -> Seq<char> {
    let t = items_text(output_items(payload), output_items(payload).len() as int);
    if t.len() > 0 {
        t
    } else {
        match str_value(member(Some(payload), "output_text"@)) {
            Some(s) => s,
            None => Seq::empty(),
        }
    }
}

/// Reads a whole Responses reply: a reported error fails it, as does a
/// reply with neither output items nor text; else its text, tool calls,
/// usage and finish reason.
pub fn parse_responses_reply(payload: &JsonNode, backend_id: &str) -> (r: Result<ResponsesReply, GatewayError>)
    ensures
        match reported_error(*payload) {
            Some(e) => r matches Err(err) && backend_error(
                err,
                GatewayErrorKind::BackendPermanent,
                "openai responses returned error: "@ + e.text@,
                backend_id@,
            ),
            None => {
                let items = output_items(*payload);
                let calls = function_calls(items, items.len() as int);
                if items.len() == 0 && reply_text(*payload).len() == 0 {
                    r matches Err(err) && backend_error(
                        err,
                        GatewayErrorKind::ProtocolViolation,
                        "openai responses payload missing output"@,
                        backend_id@,
                    )
                } else {
                    r matches Ok(reply) && {
                        &&& reply.output_text@ == reply_text(*payload)
                        &&& reply.tool_calls@.len() == calls.len()
                        &&& forall|i: int|
                            0 <= i < calls.len() ==> call_is(
                                #[trigger] reply.tool_calls@[i],
                                responses_call_view(calls[i], i),
                            )
                        &&& match member(Some(*payload), "usage"@) {
                            Some(u) => reply.usage matches Some(us) && usage_is(us, responses_usage_view(u)),
                            None => reply.usage is None,
                        }
                        &&& responses_finish_is(*payload, calls.len() > 0, reply.finish_reason)
                    }
                }
            },
        },
{
    let p = Some(payload);
    match get(p, "error") {
        Some(e) => {
            let is_null = match &e.value {
                crate::json_tree::JsonValue::Null => true,
                _ => false,
            };
            if !is_null {
                let mut m = String::from_str("openai responses returned error: ");
                m.append(e.text.as_str());
                return Err(
                    GatewayError::new(GatewayErrorKind::BackendPermanent, m.as_str()).with_retryable(
                        false,
                    ).with_backend_id(backend_id),
                );
            }
        },
        None => {},
    }
    let empty: Vec<JsonNode> = Vec::new();
    let items: &Vec<JsonNode> = match as_array(get(p, "output")) {
        Some(a) => a,
        None => &empty,
    };
    assert(items@ == output_items(*payload));
    let mut output_text = parse_output_text(items);
    if output_text.as_str().unicode_len() == 0 {
        output_text = match as_str(get(p, "output_text")) {
            Some(s) => String::from_str(s),
            None => String::new(),
        };
    }
    let tool_calls = parse_tool_calls(items);
    if items.len() == 0 && output_text.as_str().unicode_len() == 0 {
        return Err(
            GatewayError::new(
                GatewayErrorKind::ProtocolViolation,
                "openai responses payload missing output",
            ).with_retryable(false).with_backend_id(backend_id),
        );
    }
    let usage = match get(p, "usage") {
        Some(u) => Some(parse_usage(u)),
        None => None,
    };
    let finish_reason = parse_finish_reason(payload, tool_calls.len() > 0);
    Ok(ResponsesReply { output_text, tool_calls, usage, finish_reason })
}

} // verus!
