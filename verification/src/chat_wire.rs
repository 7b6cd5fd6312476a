//! The request bodies that the chat adapters send: chat messages, tools
//! and turn settings in the wire formats of OpenAI-compatible and Ollama
//! backends.
use vstd::prelude::*;

use crate::chat_capabilities::TurnPayload;
use crate::chat_types::{role_to_wire, role_wire, ChatMessage, ContentPart, MessageToolCall, OutputMode};
use crate::tool::ChatToolDefinition;
use crate::wire_out::{
    array, fields_view, items_view, jstr, jview, object, push_field, push_item, JView, JsonField,
    JsonOut,
};

verus! {

/// The text a part is sent as where only text fits: the text, the JSON
/// text of a JSON part, or the URL of an image.
pub open spec fn part_text(p: ContentPart) -> Seq<char> {
    match p {
        ContentPart::Text { text } => text@,
        ContentPart::Json { value } => value.text@,
        ContentPart::ImageUrl { url, .. } => url@,
    }
}

/// A tool call of an assistant message.
pub open spec fn tool_call_view(c: MessageToolCall) -> JView {
    JView::Object(
        seq![
            ("id"@, JView::Str(c.id@)),
            ("type"@, JView::Str("function"@)),
            (
                "function"@,
                JView::Object(
                    seq![("name"@, JView::Str(c.name@)), ("arguments"@, JView::Str(c.arguments_json@))],
                ),
            ),
        ],
    )
}

/// A part among several in OpenAI's content list.
pub open spec fn multi_part_view(p: ContentPart) -> JView {
    match p {
        ContentPart::ImageUrl { url, mime_type } => JView::Object(
            seq![("type"@, JView::Str("input_image"@)), ("image_url"@, JView::Str(url@))] + match mime_type {
                Some(m) => seq![("mime_type"@, JView::Str(m@))],
                None => Seq::empty(),
            },
        ),
        _ => JView::Object(seq![("type"@, JView::Str("text"@)), ("text"@, JView::Str(part_text(p)))]),
    }
}

/// OpenAI's content of a message: empty text, the text of its one part,
/// or the list of its parts.
pub open spec fn openai_content_view(m: ChatMessage) -> JView {
    if m.parts@.len() == 0 {
        JView::Str(Seq::empty())
    } else if m.parts@.len() == 1 {
        JView::Str(part_text(m.parts@[0]))
    } else {
        JView::Array(m.parts@.map_values(|p: ContentPart| multi_part_view(p)))
    }
}

/// The member `key` holding the text `v`, where there is one.
pub open spec fn opt_str_field(key: Seq<char>, v: Option<String>) -> Seq<(Seq<char>, JView)> {
    match v {
        Some(s) => seq![(key, JView::Str(s@))],
        None => Seq::empty(),
    }
}

/// The members that follow the content of a message: its tool call id,
/// its tool name, and its tool calls where it has some.
pub open spec fn message_tail(m: ChatMessage) -> Seq<(Seq<char>, JView)> {
    opt_str_field("tool_call_id"@, m.tool_call_id) + opt_str_field("name"@, m.tool_name) + if m.tool_calls@.len()
        > 0 {
        seq![("tool_calls"@, JView::Array(m.tool_calls@.map_values(|c: MessageToolCall| tool_call_view(c))))]
    } else {
        Seq::empty()
    }
}

/// A message in OpenAI's format.
pub open spec fn openai_message_view(m: ChatMessage) -> JView {
    JView::Object(
        seq![("role"@, JView::Str(role_wire(m.role))), ("content"@, openai_content_view(m))] + message_tail(m),
    )
}

/// The text of all parts of `ps`, one after another.
pub open spec fn parts_text(ps: Seq<ContentPart>) -> Seq<char>
    decreases ps.len(),
{
    if ps.len() == 0 {
        Seq::empty()
    } else {
        parts_text(ps.drop_last()) + part_text(ps.last())
    }
}

/// A message in Ollama's format: its parts joined into one text.
pub open spec fn ollama_message_view(m: ChatMessage) -> JView {
    JView::Object(
        seq![("role"@, JView::Str(role_wire(m.role))), ("content"@, JView::Str(parts_text(m.parts@)))]
            + message_tail(m),
    )
}

/// A tool offered to the model, in the format both backends take.
pub open spec fn tool_view(t: ChatToolDefinition) -> JView {
    JView::Object(
        seq![
            ("type"@, JView::Str("function"@)),
            (
                "function"@,
                JView::Object(
                    seq![
                        ("name"@, JView::Str(t.name@)),
                        (
                            "description"@,
                            match t.description {
                                Some(d) => JView::Str(d@),
                                None => JView::Null,
                            },
                        ),
                        ("parameters"@, JView::Raw(t.input_schema.text@)),
                    ],
                ),
            ),
        ],
    )
}

/// A tool call of an assistant message, in the format both backends take.
pub fn tool_call_to_wire(call: &MessageToolCall) -> (o: JsonOut)
    ensures
        jview(o) == tool_call_view(*call),
{
    let mut f: Vec<JsonField> = Vec::new();
    push_field(&mut f, "name", jstr(call.name.as_str()));
    push_field(&mut f, "arguments", jstr(call.arguments_json.as_str()));
    assert(fields_view(f@) =~= seq![("name"@, JView::Str(call.name@)), ("arguments"@, JView::Str(call.arguments_json@))]);
    let mut fs: Vec<JsonField> = Vec::new();
    push_field(&mut fs, "id", jstr(call.id.as_str()));
    push_field(&mut fs, "type", jstr("function"));
    push_field(&mut fs, "function", object(f));
    let o = object(fs);
    assert(fields_view(fs@) =~= seq![
        ("id"@, JView::Str(call.id@)),
        ("type"@, JView::Str("function"@)),
        (
            "function"@,
            JView::Object(
                seq![("name"@, JView::Str(call.name@)), ("arguments"@, JView::Str(call.arguments_json@))],
            ),
        ),
    ]);
    o
}

/// The text a part is sent as where only text fits.
pub fn part_to_wire_text(part: &ContentPart) -> (r: String)
    ensures
        r@ == part_text(*part),
{
    match part {
        ContentPart::Text { text } => text.clone(),
        ContentPart::Json { value } => value.text.clone(),
        ContentPart::ImageUrl { url, .. } => url.clone(),
    }
}

/// A part among several in OpenAI's content list.
pub fn part_to_multi_content(part: &ContentPart) -> (o: JsonOut)
    ensures
        jview(o) == multi_part_view(*part),
{
    let mut fs: Vec<JsonField> = Vec::new();
    match part {
        ContentPart::ImageUrl { url, mime_type } => {
            push_field(&mut fs, "type", jstr("input_image"));
            push_field(&mut fs, "image_url", jstr(url.as_str()));
            match mime_type {
                Some(m) => {
                    push_field(&mut fs, "mime_type", jstr(m.as_str()));
                },
                None => {},
            }
        },
        _ => {
            push_field(&mut fs, "type", jstr("text"));
            let text = part_to_wire_text(part);
            push_field(&mut fs, "text", jstr(text.as_str()));
        },
    }
    let o = object(fs);
    proof {
        if part is ImageUrl {
            assert(fields_view(fs@) =~= seq![("type"@, JView::Str("input_image"@)), ("image_url"@, JView::Str(part->url@))] + match part->mime_type {
                Some(m) => seq![("mime_type"@, JView::Str(m@))],
                None => Seq::empty(),
            });
        } else {
            assert(fields_view(fs@) =~= seq![("type"@, JView::Str("text"@)), ("text"@, JView::Str(part_text(*part)))]);
        }
    }
    o
}

/// OpenAI's content of a message.
pub fn message_content_to_openai(message: &ChatMessage) -> (o: JsonOut)
    ensures
        jview(o) == openai_content_view(*message),
{
    let n = message.parts.len();
    if n == 0 {
        proof {
            reveal_strlit("");
            assert(""@ =~= Seq::<char>::empty());
        }
        let o = jstr("");
        assert(jview(o) == openai_content_view(*message));
        o
    } else if n == 1 {
        let text = part_to_wire_text(&message.parts[0]);
        let o = jstr(text.as_str());
        assert(jview(o) == openai_content_view(*message));
        o
    } else {
        let mut a: Vec<JsonOut> = Vec::new();
        let mut i: usize = 0;
        while i < n
            invariant
                n == message.parts@.len(),
                i <= n,
                items_view(a@) == message.parts@.take(i as int).map_values(|p: ContentPart| multi_part_view(p)),
            decreases n - i,
        {
            push_item(&mut a, part_to_multi_content(&message.parts[i]));
            proof {
                assert(message.parts@.take(i + 1).map_values(|p: ContentPart| multi_part_view(p))
                    =~= message.parts@.take(i as int).map_values(|p: ContentPart| multi_part_view(p)).push(
                    multi_part_view(message.parts@[i as int]),
                ));
            }
            i = i + 1;
        }
        assert(message.parts@.take(n as int) =~= message.parts@);
        let o = array(a);
        assert(jview(o) == openai_content_view(*message));
        o
    }
}

fn tool_calls_to_wire(calls: &Vec<MessageToolCall>) -> (o: JsonOut)
    ensures
        jview(o) == JView::Array(calls@.map_values(|c: MessageToolCall| tool_call_view(c))),
{
    let mut a: Vec<JsonOut> = Vec::new();
    let mut i: usize = 0;
    while i < calls.len()
        invariant
            i <= calls@.len(),
            items_view(a@) == calls@.take(i as int).map_values(|c: MessageToolCall| tool_call_view(c)),
        decreases calls@.len() - i,
    {
        push_item(&mut a, tool_call_to_wire(&calls[i]));
        proof {
            assert(calls@.take(i + 1).map_values(|c: MessageToolCall| tool_call_view(c)) =~= calls@.take(
                i as int,
            ).map_values(|c: MessageToolCall| tool_call_view(c)).push(tool_call_view(calls@[i as int])));
        }
        i = i + 1;
    }
    assert(calls@.take(calls@.len() as int) =~= calls@);
    array(a)
}

fn push_message_tail(fs: &mut Vec<JsonField>, message: &ChatMessage)
    ensures
        fields_view(final(fs)@) == fields_view(old(fs)@) + message_tail(*message),
{
    let ghost f0 = fields_view(fs@);
    match &message.tool_call_id {
        Some(id) => {
            push_field(fs, "tool_call_id", jstr(id.as_str()));
        },
        None => {},
    }
    let ghost f1 = fields_view(fs@);
    match &message.tool_name {
        Some(name) => {
            push_field(fs, "name", jstr(name.as_str()));
        },
        None => {},
    }
    let ghost f2 = fields_view(fs@);
    if message.tool_calls.len() > 0 {
        push_field(fs, "tool_calls", tool_calls_to_wire(&message.tool_calls));
    }
    proof {
        assert(f1 =~= f0 + opt_str_field("tool_call_id"@, message.tool_call_id));
        assert(f2 =~= f1 + opt_str_field("name"@, message.tool_name));
        assert(fields_view(fs@) =~= f0 + message_tail(*message));
    }
}

/// A message in OpenAI's format.
fn message_to_openai(message: &ChatMessage) -> (o: JsonOut)
    ensures
        jview(o) == openai_message_view(*message),
{
    let mut fs: Vec<JsonField> = Vec::new();
    push_field(&mut fs, "role", jstr(role_to_wire(&message.role)));
    push_field(&mut fs, "content", message_content_to_openai(message));
    let ghost head = fields_view(fs@);
    assert(head =~= seq![("role"@, JView::Str(role_wire(message.role))), ("content"@, openai_content_view(*message))]);
    push_message_tail(&mut fs, message);
    object(fs)
}

/// The messages in OpenAI's format.
pub fn messages_to_openai(messages: &Vec<ChatMessage>) -> (r: Vec<JsonOut>)
    ensures
        items_view(r@) == messages@.map_values(|m: ChatMessage| openai_message_view(m)),
{
    let mut r: Vec<JsonOut> = Vec::new();
    let mut i: usize = 0;
    while i < messages.len()
        invariant
            i <= messages@.len(),
            items_view(r@) == messages@.take(i as int).map_values(|m: ChatMessage| openai_message_view(m)),
        decreases messages@.len() - i,
    {
        push_item(&mut r, message_to_openai(&messages[i]));
        proof {
            assert(messages@.take(i + 1).map_values(|m: ChatMessage| openai_message_view(m)) =~= messages@.take(
                i as int,
            ).map_values(|m: ChatMessage| openai_message_view(m)).push(openai_message_view(messages@[i as int])));
        }
        i = i + 1;
    }
    assert(messages@.take(messages@.len() as int) =~= messages@);
    r
}

/// The parts of a message joined into one text.
fn join_parts(parts: &Vec<ContentPart>) -> (r: String)
    ensures
        r@ == parts_text(parts@),
{
    let mut r = String::new();
    let mut i: usize = 0;
    while i < parts.len()
        invariant
            i <= parts@.len(),
            r@ == parts_text(parts@.take(i as int)),
        decreases parts@.len() - i,
    {
        let t = part_to_wire_text(&parts[i]);
        r.append(t.as_str());
        proof {
            assert(parts@.take(i + 1).drop_last() =~= parts@.take(i as int));
        }
        i = i + 1;
    }
    assert(parts@.take(parts@.len() as int) =~= parts@);
    r
}

/// A message in Ollama's format.
fn message_to_ollama(message: &ChatMessage) -> (o: JsonOut)
    ensures
        jview(o) == ollama_message_view(*message),
{
    let mut fs: Vec<JsonField> = Vec::new();
    push_field(&mut fs, "role", jstr(role_to_wire(&message.role)));
    let text = join_parts(&message.parts);
    push_field(&mut fs, "content", jstr(text.as_str()));
    let ghost head = fields_view(fs@);
    assert(head =~= seq![("role"@, JView::Str(role_wire(message.role))), ("content"@, JView::Str(parts_text(message.parts@)))]);
    push_message_tail(&mut fs, message);
    object(fs)
}

/// The messages in Ollama's format.
pub fn messages_to_ollama(messages: &Vec<ChatMessage>) -> (r: Vec<JsonOut>)
    ensures
        items_view(r@) == messages@.map_values(|m: ChatMessage| ollama_message_view(m)),
{
    let mut r: Vec<JsonOut> = Vec::new();
    let mut i: usize = 0;
    while i < messages.len()
        invariant
            i <= messages@.len(),
            items_view(r@) == messages@.take(i as int).map_values(|m: ChatMessage| ollama_message_view(m)),
        decreases messages@.len() - i,
    {
        push_item(&mut r, message_to_ollama(&messages[i]));
        proof {
            assert(messages@.take(i + 1).map_values(|m: ChatMessage| ollama_message_view(m)) =~= messages@.take(
                i as int,
            ).map_values(|m: ChatMessage| ollama_message_view(m)).push(ollama_message_view(messages@[i as int])));
        }
        i = i + 1;
    }
    assert(messages@.take(messages@.len() as int) =~= messages@);
    r
}

/// A tool offered to the model.
fn tool_to_wire(tool: &ChatToolDefinition) -> (o: JsonOut)
    ensures
        jview(o) == tool_view(*tool),
{
    let mut f: Vec<JsonField> = Vec::new();
    push_field(&mut f, "name", jstr(tool.name.as_str()));
    let description = match &tool.description {
        Some(d) => jstr(d.as_str()),
        None => JsonOut::Null,
    };
    push_field(&mut f, "description", description);
    push_field(&mut f, "parameters", JsonOut::Raw(tool.input_schema.duplicate()));
    let mut fs: Vec<JsonField> = Vec::new();
    push_field(&mut fs, "type", jstr("function"));
    let ghost fv = fields_view(f@);
    push_field(&mut fs, "function", object(f));
    proof {
        assert(fv =~= seq![
            ("name"@, JView::Str(tool.name@)),
            (
                "description"@,
                match tool.description {
                    Some(d) => JView::Str(d@),
                    None => JView::Null,
                },
            ),
            ("parameters"@, JView::Raw(tool.input_schema.text@)),
        ]);
    }
    let o = object(fs);
    assert(fields_view(fs@) =~= seq![("type"@, JView::Str("function"@)), ("function"@, JView::Object(fv))]);
    o
}

/// The tools offered to the model, in the format both backends take.
pub fn tools_to_wire(tools: &Vec<ChatToolDefinition>) -> (r: Vec<JsonOut>)
    ensures
        items_view(r@) == tools@.map_values(|t: ChatToolDefinition| tool_view(t)),
{
    let mut r: Vec<JsonOut> = Vec::new();
    let mut i: usize = 0;
    while i < tools.len()
        invariant
            i <= tools@.len(),
            items_view(r@) == tools@.take(i as int).map_values(|t: ChatToolDefinition| tool_view(t)),
        decreases tools@.len() - i,
    {
        push_item(&mut r, tool_to_wire(&tools[i]));
        proof {
            assert(tools@.take(i + 1).map_values(|t: ChatToolDefinition| tool_view(t)) =~= tools@.take(
                i as int,
            ).map_values(|t: ChatToolDefinition| tool_view(t)).push(tool_view(tools@[i as int])));
        }
        i = i + 1;
    }
    assert(tools@.take(tools@.len() as int) =~= tools@);
    r
}

/// The members that carry the output mode in OpenAI's format.
pub open spec fn response_format_fields(mode: OutputMode) -> Seq<(Seq<char>, JView)> {
    match mode {
        OutputMode::Text => Seq::empty(),
        OutputMode::JsonObject => seq![("response_format"@, JView::Object(seq![("type"@, JView::Str("json_object"@))]))],
        OutputMode::JsonSchema { name, schema, strict } => seq![
            (
                "response_format"@,
                JView::Object(
                    seq![
                        ("type"@, JView::Str("json_schema"@)),
                        (
                            "json_schema"@,
                            JView::Object(
                                seq![
                                    ("name"@, JView::Str(name@)),
                                    ("schema"@, JView::Raw(schema.text@)),
                                    ("strict"@, JView::Bool(strict)),
                                ],
                            ),
                        ),
                    ],
                ),
            ),
        ],
    }
}

/// The thinking budget: the output token limit, else 10000.
pub open spec fn thinking_budget(max_output_tokens: Option<u64>) -> u64 {
    match max_output_tokens {
        Some(m) => m,
        None => 10000u64,
    }
}

/// The members that carry the thinking switch in OpenAI's format.
pub open spec fn thinking_fields(enable: bool, max_output_tokens: Option<u64>) -> Seq<(Seq<char>, JView)> {
    if enable {
        seq![
            (
                "thinking"@,
                JView::Object(
                    seq![
                        ("type"@, JView::Str("enabled"@)),
                        ("budget_tokens"@, JView::Number(thinking_budget(max_output_tokens))),
                    ],
                ),
            ),
            (
                "extra_body"@,
                JView::Object(
                    seq![
                        ("enable_thinking"@, JView::Str("enabled"@)),
                        ("thinking_budget"@, JView::Str("payload.limits.max_output_tokens.unwrap_or(10000)"@)),
                    ],
                ),
            ),
            ("enable_thinking"@, JView::Bool(true)),
        ]
    } else {
        seq![
            ("thinking"@, JView::Object(seq![("type"@, JView::Str("disabled"@))])),
            ("enable_thinking"@, JView::Bool(false)),
        ]
    }
}

/// The body of a chat request to an OpenAI-compatible backend: the model,
/// the messages and the stream flag; the tools, chosen freely, where there
/// are some; the output mode; the output token limit; and the thinking
/// switch.
pub open spec fn openai_body_view(model: Seq<char>, p: TurnPayload, stream: bool) -> JView {
    JView::Object(
        seq![
            ("model"@, JView::Str(model)),
            ("messages"@, JView::Array(p.messages@.map_values(|m: ChatMessage| openai_message_view(m)))),
            ("stream"@, JView::Bool(stream)),
        ] + (if p.tools@.len() > 0 {
            seq![
                ("tools"@, JView::Array(p.tools@.map_values(|t: ChatToolDefinition| tool_view(t)))),
                ("tool_choice"@, JView::Str("auto"@)),
            ]
        } else {
            Seq::empty()
        }) + response_format_fields(p.output_mode) + (match p.limits.max_output_tokens {
            Some(m) => seq![("max_tokens"@, JView::Number(m))],
            None => Seq::empty(),
        }) + thinking_fields(p.enable_thinking, p.limits.max_output_tokens),
    )
}

fn push_response_format(fs: &mut Vec<JsonField>, mode: &OutputMode)
    ensures
        fields_view(final(fs)@) == fields_view(old(fs)@) + response_format_fields(*mode),
{
    let ghost f0 = fields_view(fs@);
    match mode {
        OutputMode::Text => {
            assert(fields_view(fs@) =~= f0 + response_format_fields(*mode));
        },
        OutputMode::JsonObject => {
            let mut rf: Vec<JsonField> = Vec::new();
            push_field(&mut rf, "type", jstr("json_object"));
            assert(fields_view(rf@) =~= seq![("type"@, JView::Str("json_object"@))]);
            push_field(fs, "response_format", object(rf));
            assert(fields_view(fs@) =~= f0 + response_format_fields(*mode));
        },
        OutputMode::JsonSchema { name, schema, strict } => {
            let mut js: Vec<JsonField> = Vec::new();
            push_field(&mut js, "name", jstr(name.as_str()));
            push_field(&mut js, "schema", JsonOut::Raw(schema.duplicate()));
            push_field(&mut js, "strict", JsonOut::Bool(*strict));
            let ghost jv = fields_view(js@);
            assert(jv =~= seq![
                ("name"@, JView::Str(name@)),
                ("schema"@, JView::Raw(schema.text@)),
                ("strict"@, JView::Bool(*strict)),
            ]);
            let mut rf: Vec<JsonField> = Vec::new();
            push_field(&mut rf, "type", jstr("json_schema"));
            push_field(&mut rf, "json_schema", object(js));
            assert(fields_view(rf@) =~= seq![("type"@, JView::Str("json_schema"@)), ("json_schema"@, JView::Object(jv))]);
            push_field(fs, "response_format", object(rf));
            assert(fields_view(fs@) =~= f0 + response_format_fields(*mode));
        },
    }
}

fn push_thinking(fs: &mut Vec<JsonField>, enable: bool, max_output_tokens: Option<u64>)
    ensures
        fields_view(final(fs)@) == fields_view(old(fs)@) + thinking_fields(enable, max_output_tokens),
{
    let ghost f0 = fields_view(fs@);
    if enable {
        let budget: u64 = match max_output_tokens {
            Some(m) => m,
            None => 10000,
        };
        let mut t: Vec<JsonField> = Vec::new();
        push_field(&mut t, "type", jstr("enabled"));
        push_field(&mut t, "budget_tokens", JsonOut::Number(budget));
        let ghost tv = fields_view(t@);
        assert(tv =~= seq![("type"@, JView::Str("enabled"@)), ("budget_tokens"@, JView::Number(budget))]);
        push_field(fs, "thinking", object(t));
        let mut e: Vec<JsonField> = Vec::new();
        push_field(&mut e, "enable_thinking", jstr("enabled"));
        push_field(&mut e, "thinking_budget", jstr("payload.limits.max_output_tokens.unwrap_or(10000)"));
        let ghost ev = fields_view(e@);
        assert(ev =~= seq![
            ("enable_thinking"@, JView::Str("enabled"@)),
            ("thinking_budget"@, JView::Str("payload.limits.max_output_tokens.unwrap_or(10000)"@)),
        ]);
        push_field(fs, "extra_body", object(e));
        push_field(fs, "enable_thinking", JsonOut::Bool(true));
        assert(fields_view(fs@) =~= f0 + thinking_fields(enable, max_output_tokens));
    } else {
        let mut t: Vec<JsonField> = Vec::new();
        push_field(&mut t, "type", jstr("disabled"));
        assert(fields_view(t@) =~= seq![("type"@, JView::Str("disabled"@))]);
        push_field(fs, "thinking", object(t));
        push_field(fs, "enable_thinking", JsonOut::Bool(false));
        assert(fields_view(fs@) =~= f0 + thinking_fields(enable, max_output_tokens));
    }
}

/// The body of a chat request to an OpenAI-compatible backend.
pub fn build_openai_body(model: &str, payload: &TurnPayload, stream: bool) -> (o: JsonOut)
    ensures
        jview(o) == openai_body_view(model@, *payload, stream),
{
    let mut fs: Vec<JsonField> = Vec::new();
    push_field(&mut fs, "model", jstr(model));
    let messages = messages_to_openai(&payload.messages);
    push_field(&mut fs, "messages", array(messages));
    push_field(&mut fs, "stream", JsonOut::Bool(stream));
    let ghost f0 = fields_view(fs@);
    if payload.tools.len() > 0 {
        let tools = tools_to_wire(&payload.tools);
        push_field(&mut fs, "tools", array(tools));
        push_field(&mut fs, "tool_choice", jstr("auto"));
    }
    let ghost f1 = fields_view(fs@);
    push_response_format(&mut fs, &payload.output_mode);
    let ghost f2 = fields_view(fs@);
    match payload.limits.max_output_tokens {
        Some(m) => {
            push_field(&mut fs, "max_tokens", JsonOut::Number(m));
        },
        None => {},
    }
    let ghost f3 = fields_view(fs@);
    push_thinking(&mut fs, payload.enable_thinking, payload.limits.max_output_tokens);
    proof {
        let p = *payload;
        assert(f0 =~= seq![
            ("model"@, JView::Str(model@)),
            ("messages"@, JView::Array(p.messages@.map_values(|m: ChatMessage| openai_message_view(m)))),
            ("stream"@, JView::Bool(stream)),
        ]);
        assert(f1 =~= f0 + (if p.tools@.len() > 0 {
            seq![
                ("tools"@, JView::Array(p.tools@.map_values(|t: ChatToolDefinition| tool_view(t)))),
                ("tool_choice"@, JView::Str("auto"@)),
            ]
        } else {
            Seq::empty()
        }));
        assert(f3 =~= f2 + (match p.limits.max_output_tokens {
            Some(m) => seq![("max_tokens"@, JView::Number(m))],
            None => Seq::empty(),
        }));
    }
    object(fs)
}

/// The body of a chat request to an Ollama backend: the model, the
/// messages and the stream flag; the tools where there are some; the
/// output token limit as an option; and the thinking switch where it is
/// on.
pub open spec fn ollama_body_view(model: Seq<char>, p: TurnPayload, stream: bool) -> JView {
    JView::Object(
        seq![
            ("model"@, JView::Str(model)),
            ("messages"@, JView::Array(p.messages@.map_values(|m: ChatMessage| ollama_message_view(m)))),
            ("stream"@, JView::Bool(stream)),
        ] + (if p.tools@.len() > 0 {
            seq![("tools"@, JView::Array(p.tools@.map_values(|t: ChatToolDefinition| tool_view(t))))]
        } else {
            Seq::empty()
        }) + (match p.limits.max_output_tokens {
            Some(m) => seq![("options"@, JView::Object(seq![("num_predict"@, JView::Number(m))]))],
            None => Seq::empty(),
        }) + (if p.enable_thinking {
            seq![("think"@, JView::Bool(true))]
        } else {
            Seq::empty()
        }),
    )
}

/// The body of a chat request to an Ollama backend.
pub fn build_ollama_body(model: &str, payload: &TurnPayload, stream: bool) -> (o: JsonOut)
    ensures
        jview(o) == ollama_body_view(model@, *payload, stream),
{
    let mut fs: Vec<JsonField> = Vec::new();
    push_field(&mut fs, "model", jstr(model));
    let messages = messages_to_ollama(&payload.messages);
    push_field(&mut fs, "messages", array(messages));
    push_field(&mut fs, "stream", JsonOut::Bool(stream));
    let ghost f0 = fields_view(fs@);
    if payload.tools.len() > 0 {
        let tools = tools_to_wire(&payload.tools);
        push_field(&mut fs, "tools", array(tools));
    }
    let ghost f1 = fields_view(fs@);
    match payload.limits.max_output_tokens {
        Some(m) => {
            let mut opts: Vec<JsonField> = Vec::new();
            push_field(&mut opts, "num_predict", JsonOut::Number(m));
            assert(fields_view(opts@) =~= seq![("num_predict"@, JView::Number(m))]);
            push_field(&mut fs, "options", object(opts));
        },
        None => {},
    }
    let ghost f2 = fields_view(fs@);
    if payload.enable_thinking {
        push_field(&mut fs, "think", JsonOut::Bool(true));
    }
    proof {
        let p = *payload;
        assert(f0 =~= seq![
            ("model"@, JView::Str(model@)),
            ("messages"@, JView::Array(p.messages@.map_values(|m: ChatMessage| ollama_message_view(m)))),
            ("stream"@, JView::Bool(stream)),
        ]);
        assert(f1 =~= f0 + (if p.tools@.len() > 0 {
            seq![("tools"@, JView::Array(p.tools@.map_values(|t: ChatToolDefinition| tool_view(t))))]
        } else {
            Seq::empty()
        }));
        assert(f2 =~= f1 + (match p.limits.max_output_tokens {
            Some(m) => seq![("options"@, JView::Object(seq![("num_predict"@, JView::Number(m))]))],
            None => Seq::empty(),
        }));
        assert(fields_view(fs@) =~= f2 + (if p.enable_thinking {
            seq![("think"@, JView::Bool(true))]
        } else {
            Seq::empty()
        }));
    }
    object(fs)
}

} // verus!
