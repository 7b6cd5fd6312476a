//! Canonical requests in the wire formats of OpenAI-compatible and Ollama
//! backends: messages, tools, the tool choice and the whole request body.
use vstd::prelude::*;

use crate::canonical::{
    CanonicalContentPart, CanonicalMessage, CanonicalOutputMode, CanonicalRequest, CanonicalRole,
    CanonicalToolChoice, CanonicalToolDefinition,
};
use crate::wire_out::{
    array, fields_view, items_view, jstr, jview, object, push_field, push_item, JView, JsonField,
    JsonOut,
};

verus! {

/// The wire name of a canonical role.
pub open spec fn canonical_role_wire(role: CanonicalRole) -> Seq<char> {
    match role {
        CanonicalRole::System => "system"@,
        CanonicalRole::User => "user"@,
        CanonicalRole::Assistant => "assistant"@,
        CanonicalRole::Tool => "tool"@,
    }
}

/// The wire name of a canonical role.
pub fn role_to_wire(role: &CanonicalRole) -> (r: &'static str)
    ensures
        r@ == canonical_role_wire(*role),
{
    match role {
        CanonicalRole::System => "system",
        CanonicalRole::User => "user",
        CanonicalRole::Assistant => "assistant",
        CanonicalRole::Tool => "tool",
    }
}

/// The text a part is sent as where only text fits.
pub open spec fn canonical_part_text(p: CanonicalContentPart) -> Seq<char> {
    match p {
        CanonicalContentPart::Text { text } => text@,
        CanonicalContentPart::Json { value } => value.text@,
        CanonicalContentPart::ImageUrl { url, .. } => url@,
    }
}

/// A part among several in OpenAI's content list.
pub open spec fn canonical_multi_part_view(p: CanonicalContentPart) -> JView {
    match p {
        CanonicalContentPart::ImageUrl { url, mime_type } => JView::Object(
            seq![("type"@, JView::Str("input_image"@)), ("image_url"@, JView::Str(url@))] + match mime_type {
                Some(m) => seq![("mime_type"@, JView::Str(m@))],
                None => Seq::empty(),
            },
        ),
        _ => JView::Object(seq![("type"@, JView::Str("text"@)), ("text"@, JView::Str(canonical_part_text(p)))]),
    }
}

/// OpenAI's content of a message: empty text, the text of its one part,
/// or the list of its parts.
pub open spec fn canonical_content_view(m: CanonicalMessage) -> JView {
    if m.parts@.len() == 0 {
        JView::Str(Seq::empty())
    } else if m.parts@.len() == 1 {
        JView::Str(canonical_part_text(m.parts@[0]))
    } else {
        JView::Array(m.parts@.map_values(|p: CanonicalContentPart| canonical_multi_part_view(p)))
    }
}

/// The tool call id and tool name of a message, where it has them.
pub open spec fn canonical_tail(m: CanonicalMessage) -> Seq<(Seq<char>, JView)> {
    (match m.tool_call_id {
        Some(s) => seq![("tool_call_id"@, JView::Str(s@))],
        None => Seq::empty(),
    }) + match m.tool_name {
        Some(s) => seq![("name"@, JView::Str(s@))],
        None => Seq::empty(),
    }
}

/// A canonical message in OpenAI's format.
pub open spec fn canonical_openai_view(m: CanonicalMessage) -> JView {
    JView::Object(
        seq![("role"@, JView::Str(canonical_role_wire(m.role))), ("content"@, canonical_content_view(m))]
            + canonical_tail(m),
    )
}

/// The text of all parts of `ps`, one after another.
pub open spec fn canonical_parts_text(ps: Seq<CanonicalContentPart>) -> Seq<char>
    decreases ps.len(),
{
    if ps.len() == 0 {
        Seq::empty()
    } else {
        canonical_parts_text(ps.drop_last()) + canonical_part_text(ps.last())
    }
}

/// A canonical message in Ollama's format: its parts joined into one text.
pub open spec fn canonical_ollama_view(m: CanonicalMessage) -> JView {
    JView::Object(
        seq![
            ("role"@, JView::Str(canonical_role_wire(m.role))),
            ("content"@, JView::Str(canonical_parts_text(m.parts@))),
        ] + canonical_tail(m),
    )
}

/// A canonical tool, in the format both backends take.
pub open spec fn canonical_tool_view(t: CanonicalToolDefinition) -> JView {
    JView::Object(
        seq![
            ("type"@, JView::Str("function"@)),
            (
                "function"@,
                JView::Object(
                    seq![
                        ("name"@, JView::Str(t.name@)),
                        (
                            "description"@,
                            match t.description {
                                Some(d) => JView::Str(d@),
                                None => JView::Null,
                            },
                        ),
                        ("parameters"@, JView::Raw(t.input_schema.text@)),
                    ],
                ),
            ),
        ],
    )
}

/// The tool choice in OpenAI's format.
pub open spec fn tool_choice_view(c: CanonicalToolChoice) -> JView {
    match c {
        CanonicalToolChoice::Auto => JView::Str("auto"@),
        CanonicalToolChoice::NoTool => JView::Str("none"@),
        CanonicalToolChoice::Required => JView::Str("required"@),
        CanonicalToolChoice::Specific { name } => JView::Object(
            seq![
                ("type"@, JView::Str("function"@)),
                ("function"@, JView::Object(seq![("name"@, JView::Str(name@))])),
            ],
        ),
    }
}

fn part_to_wire_text(part: &CanonicalContentPart) -> (r: String)
    ensures
        r@ == canonical_part_text(*part),
{
    match part {
        CanonicalContentPart::Text { text } => text.clone(),
        CanonicalContentPart::Json { value } => value.text.clone(),
        CanonicalContentPart::ImageUrl { url, .. } => url.clone(),
    }
}

fn part_to_multi_content(part: &CanonicalContentPart) -> (o: JsonOut)
    ensures
        jview(o) == canonical_multi_part_view(*part),
{
    let mut fs: Vec<JsonField> = Vec::new();
    match part {
        CanonicalContentPart::ImageUrl { url, mime_type } => {
            push_field(&mut fs, "type", jstr("input_image"));
            push_field(&mut fs, "image_url", jstr(url.as_str()));
            match mime_type {
                Some(m) => {
                    push_field(&mut fs, "mime_type", jstr(m.as_str()));
                },
                None => {},
            }
        },
        _ => {
            push_field(&mut fs, "type", jstr("text"));
            let text = part_to_wire_text(part);
            push_field(&mut fs, "text", jstr(text.as_str()));
        },
    }
    let o = object(fs);
    proof {
        if part is ImageUrl {
            assert(fields_view(fs@) =~= seq![("type"@, JView::Str("input_image"@)), ("image_url"@, JView::Str(part->url@))] + match part->mime_type {
                Some(m) => seq![("mime_type"@, JView::Str(m@))],
                None => Seq::empty(),
            });
        } else {
            assert(fields_view(fs@) =~= seq![("type"@, JView::Str("text"@)), ("text"@, JView::Str(canonical_part_text(*part)))]);
        }
    }
    o
}

fn message_content_to_openai(message: &CanonicalMessage) -> (o: JsonOut)
    ensures
        jview(o) == canonical_content_view(*message),
{
    let n = message.parts.len();
    if n == 0 {
        proof {
            reveal_strlit("");
            assert(""@ =~= Seq::<char>::empty());
        }
        jstr("")
    } else if n == 1 {
        let text = part_to_wire_text(&message.parts[0]);
        jstr(text.as_str())
    } else {
        let mut a: Vec<JsonOut> = Vec::new();
        let mut i: usize = 0;
        while i < n
            invariant
                n == message.parts@.len(),
                i <= n,
                items_view(a@) == message.parts@.take(i as int).map_values(
                    |p: CanonicalContentPart| canonical_multi_part_view(p),
                ),
            decreases n - i,
        {
            push_item(&mut a, part_to_multi_content(&message.parts[i]));
            proof {
                assert(message.parts@.take(i + 1).map_values(|p: CanonicalContentPart| canonical_multi_part_view(p))
                    =~= message.parts@.take(i as int).map_values(
                    |p: CanonicalContentPart| canonical_multi_part_view(p),
                ).push(canonical_multi_part_view(message.parts@[i as int])));
            }
            i = i + 1;
        }
        assert(message.parts@.take(n as int) =~= message.parts@);
        array(a)
    }
}

fn push_tail(fs: &mut Vec<JsonField>, message: &CanonicalMessage)
    ensures
        fields_view(final(fs)@) == fields_view(old(fs)@) + canonical_tail(*message),
{
    let ghost f0 = fields_view(fs@);
    match &message.tool_call_id {
        Some(id) => {
            push_field(fs, "tool_call_id", jstr(id.as_str()));
        },
        None => {},
    }
    let ghost f1 = fields_view(fs@);
    match &message.tool_name {
        Some(name) => {
            push_field(fs, "name", jstr(name.as_str()));
        },
        None => {},
    }
    proof {
        assert(fields_view(fs@) =~= f0 + canonical_tail(*message));
    }
}

/// Canonical messages in OpenAI's format.
pub fn canonical_messages_to_openai(messages: &Vec<CanonicalMessage>) -> (r: Vec<JsonOut>)
    ensures
        items_view(r@) == messages@.map_values(|m: CanonicalMessage| canonical_openai_view(m)),
{
    let mut r: Vec<JsonOut> = Vec::new();
    let mut i: usize = 0;
    while i < messages.len()
        invariant
            i <= messages@.len(),
            items_view(r@) == messages@.take(i as int).map_values(|m: CanonicalMessage| canonical_openai_view(m)),
        decreases messages@.len() - i,
    {
        let m = &messages[i];
        let mut fs: Vec<JsonField> = Vec::new();
        push_field(&mut fs, "role", jstr(role_to_wire(&m.role)));
        push_field(&mut fs, "content", message_content_to_openai(m));
        assert(fields_view(fs@) =~= seq![("role"@, JView::Str(canonical_role_wire(m.role))), ("content"@, canonical_content_view(*m))]);
        push_tail(&mut fs, m);
        push_item(&mut r, object(fs));
        proof {
            assert(messages@.take(i + 1).map_values(|m: CanonicalMessage| canonical_openai_view(m)) =~= messages@.take(
                i as int,
            ).map_values(|m: CanonicalMessage| canonical_openai_view(m)).push(canonical_openai_view(messages@[i as int])));
        }
        i = i + 1;
    }
    assert(messages@.take(messages@.len() as int) =~= messages@);
    r
}

fn join_parts(parts: &Vec<CanonicalContentPart>) -> (r: String)
    ensures
        r@ == canonical_parts_text(parts@),
{
    let mut r = String::new();
    let mut i: usize = 0;
    while i < parts.len()
        invariant
            i <= parts@.len(),
            r@ == canonical_parts_text(parts@.take(i as int)),
        decreases parts@.len() - i,
    {
        let t = part_to_wire_text(&parts[i]);
        r.append(t.as_str());
        proof {
            assert(parts@.take(i + 1).drop_last() =~= parts@.take(i as int));
        }
        i = i + 1;
    }
    assert(parts@.take(parts@.len() as int) =~= parts@);
    r
}

/// Canonical messages in Ollama's format.
pub fn canonical_messages_to_ollama(messages: &Vec<CanonicalMessage>) -> (r: Vec<JsonOut>)
    ensures
        items_view(r@) == messages@.map_values(|m: CanonicalMessage| canonical_ollama_view(m)),
{
    let mut r: Vec<JsonOut> = Vec::new();
    let mut i: usize = 0;
    while i < messages.len()
        invariant
            i <= messages@.len(),
            items_view(r@) == messages@.take(i as int).map_values(|m: CanonicalMessage| canonical_ollama_view(m)),
        decreases messages@.len() - i,
    {
        let m = &messages[i];
        let mut fs: Vec<JsonField> = Vec::new();
        push_field(&mut fs, "role", jstr(role_to_wire(&m.role)));
        let text = join_parts(&m.parts);
        push_field(&mut fs, "content", jstr(text.as_str()));
        assert(fields_view(fs@) =~= seq![
            ("role"@, JView::Str(canonical_role_wire(m.role))),
            ("content"@, JView::Str(canonical_parts_text(m.parts@))),
        ]);
        push_tail(&mut fs, m);
        push_item(&mut r, object(fs));
        proof {
            assert(messages@.take(i + 1).map_values(|m: CanonicalMessage| canonical_ollama_view(m)) =~= messages@.take(
                i as int,
            ).map_values(|m: CanonicalMessage| canonical_ollama_view(m)).push(canonical_ollama_view(messages@[i as int])));
        }
        i = i + 1;
    }
    assert(messages@.take(messages@.len() as int) =~= messages@);
    r
}

/// The tool choice in OpenAI's format.
pub fn tool_choice_to_openai(choice: &CanonicalToolChoice) -> (o: JsonOut)
    ensures
        jview(o) == tool_choice_view(*choice),
{
    match choice {
        CanonicalToolChoice::Auto => jstr("auto"),
        CanonicalToolChoice::NoTool => jstr("none"),
        CanonicalToolChoice::Required => jstr("required"),
        CanonicalToolChoice::Specific { name } => {
            let mut f: Vec<JsonField> = Vec::new();
            push_field(&mut f, "name", jstr(name.as_str()));
            let ghost fv = fields_view(f@);
            assert(fv =~= seq![("name"@, JView::Str(name@))]);
            let mut fs: Vec<JsonField> = Vec::new();
            push_field(&mut fs, "type", jstr("function"));
            push_field(&mut fs, "function", object(f));
            assert(fields_view(fs@) =~= seq![("type"@, JView::Str("function"@)), ("function"@, JView::Object(fv))]);
            object(fs)
        },
    }
}

fn tool_to_wire(tool: &CanonicalToolDefinition) -> (o: JsonOut)
    ensures
        jview(o) == canonical_tool_view(*tool),
{
    let mut f: Vec<JsonField> = Vec::new();
    push_field(&mut f, "name", jstr(tool.name.as_str()));
    let description = match &tool.description {
        Some(d) => jstr(d.as_str()),
        None => JsonOut::Null,
    };
    push_field(&mut f, "description", description);
    push_field(&mut f, "parameters", JsonOut::Raw(tool.input_schema.duplicate()));
    let ghost fv = fields_view(f@);
    assert(fv =~= seq![
        ("name"@, JView::Str(tool.name@)),
        (
            "description"@,
            match tool.description {
                Some(d) => JView::Str(d@),
                None => JView::Null,
            },
        ),
        ("parameters"@, JView::Raw(tool.input_schema.text@)),
    ]);
    let mut fs: Vec<JsonField> = Vec::new();
    push_field(&mut fs, "type", jstr("function"));
    push_field(&mut fs, "function", object(f));
    assert(fields_view(fs@) =~= seq![("type"@, JView::Str("function"@)), ("function"@, JView::Object(fv))]);
    object(fs)
}

/// Canonical tools, in the format both backends take.
pub fn canonical_tools_to_wire(tools: &Vec<CanonicalToolDefinition>) -> (r: Vec<JsonOut>)
    ensures
        items_view(r@) == tools@.map_values(|t: CanonicalToolDefinition| canonical_tool_view(t)),
{
    let mut r: Vec<JsonOut> = Vec::new();
    let mut i: usize = 0;
    while i < tools.len()
        invariant
            i <= tools@.len(),
            items_view(r@) == tools@.take(i as int).map_values(|t: CanonicalToolDefinition| canonical_tool_view(t)),
        decreases tools@.len() - i,
    {
        push_item(&mut r, tool_to_wire(&tools[i]));
        proof {
            assert(tools@.take(i + 1).map_values(|t: CanonicalToolDefinition| canonical_tool_view(t)) =~= tools@.take(
                i as int,
            ).map_values(|t: CanonicalToolDefinition| canonical_tool_view(t)).push(canonical_tool_view(tools@[i as int])));
        }
        i = i + 1;
    }
    assert(tools@.take(tools@.len() as int) =~= tools@);
    r
}

/// The members that carry a canonical output mode in OpenAI's format.
pub open spec fn canonical_response_format_fields(mode: CanonicalOutputMode) -> Seq<(Seq<char>, JView)> {
    match mode {
        CanonicalOutputMode::Text => Seq::empty(),
        CanonicalOutputMode::JsonObject => seq![("response_format"@, JView::Object(seq![("type"@, JView::Str("json_object"@))]))],
        CanonicalOutputMode::JsonSchema { name, schema, strict } => seq![
            (
                "response_format"@,
                JView::Object(
                    seq![
                        ("type"@, JView::Str("json_schema"@)),
                        (
                            "json_schema"@,
                            JView::Object(
                                seq![
                                    ("name"@, JView::Str(name@)),
                                    ("schema"@, JView::Raw(schema.text@)),
                                    ("strict"@, JView::Bool(strict)),
                                ],
                            ),
                        ),
                    ],
                ),
            ),
        ],
    }
}

/// The body of a canonical request to an OpenAI-compatible backend for
/// `model`: the model, the messages and the request's stream flag; the
/// tools and the request's tool choice where there are tools; the output
/// mode; and the output token limit as `max_tokens`.
pub open spec fn canonical_openai_body_view(model: Seq<char>, r: CanonicalRequest) -> JView {
    JView::Object(
        seq![
            ("model"@, JView::Str(model)),
            ("messages"@, JView::Array(r.messages@.map_values(|m: CanonicalMessage| canonical_openai_view(m)))),
            ("stream"@, JView::Bool(r.stream)),
        ] + (if r.tools@.len() > 0 {
            seq![
                ("tools"@, JView::Array(r.tools@.map_values(|t: CanonicalToolDefinition| canonical_tool_view(t)))),
                ("tool_choice"@, tool_choice_view(r.tool_choice)),
            ]
        } else {
            Seq::empty()
        }) + canonical_response_format_fields(r.output_mode) + (match r.limits.max_output_tokens {
            Some(m) => seq![("max_tokens"@, JView::Number(m))],
            None => Seq::empty(),
        }),
    )
}

fn push_canonical_response_format(fs: &mut Vec<JsonField>, mode: &CanonicalOutputMode)
    ensures
        fields_view(final(fs)@) == fields_view(old(fs)@) + canonical_response_format_fields(*mode),
{
    let ghost f0 = fields_view(fs@);
    match mode {
        CanonicalOutputMode::Text => {
            assert(fields_view(fs@) =~= f0 + canonical_response_format_fields(*mode));
        },
        CanonicalOutputMode::JsonObject => {
            let mut rf: Vec<JsonField> = Vec::new();
            push_field(&mut rf, "type", jstr("json_object"));
            assert(fields_view(rf@) =~= seq![("type"@, JView::Str("json_object"@))]);
            push_field(fs, "response_format", object(rf));
            assert(fields_view(fs@) =~= f0 + canonical_response_format_fields(*mode));
        },
        CanonicalOutputMode::JsonSchema { name, schema, strict } => {
            let mut js: Vec<JsonField> = Vec::new();
            push_field(&mut js, "name", jstr(name.as_str()));
            push_field(&mut js, "schema", JsonOut::Raw(schema.duplicate()));
            push_field(&mut js, "strict", JsonOut::Bool(*strict));
            let ghost jv = fields_view(js@);
            assert(jv =~= seq![
                ("name"@, JView::Str(name@)),
                ("schema"@, JView::Raw(schema.text@)),
                ("strict"@, JView::Bool(*strict)),
            ]);
            let mut rf: Vec<JsonField> = Vec::new();
            push_field(&mut rf, "type", jstr("json_schema"));
            push_field(&mut rf, "json_schema", object(js));
            assert(fields_view(rf@) =~= seq![("type"@, JView::Str("json_schema"@)), ("json_schema"@, JView::Object(jv))]);
            push_field(fs, "response_format", object(rf));
            assert(fields_view(fs@) =~= f0 + canonical_response_format_fields(*mode));
        },
    }
}

/// The body of a canonical request to an OpenAI-compatible backend.
pub fn build_canonical_openai_body(model: &str, req: &CanonicalRequest) -> (o: JsonOut)
    ensures
        jview(o) == canonical_openai_body_view(model@, *req),
{
    let mut fs: Vec<JsonField> = Vec::new();
    push_field(&mut fs, "model", jstr(model));
    let messages = canonical_messages_to_openai(&req.messages);
    push_field(&mut fs, "messages", array(messages));
    push_field(&mut fs, "stream", JsonOut::Bool(req.stream));
    let ghost f0 = fields_view(fs@);
    if req.tools.len() > 0 {
        let tools = canonical_tools_to_wire(&req.tools);
        push_field(&mut fs, "tools", array(tools));
        push_field(&mut fs, "tool_choice", tool_choice_to_openai(&req.tool_choice));
    }
    let ghost f1 = fields_view(fs@);
    push_canonical_response_format(&mut fs, &req.output_mode);
    let ghost f2 = fields_view(fs@);
    match req.limits.max_output_tokens {
        Some(m) => {
            push_field(&mut fs, "max_tokens", JsonOut::Number(m));
        },
        None => {},
    }
    proof {
        let r = *req;
        assert(f0 =~= seq![
            ("model"@, JView::Str(model@)),
            ("messages"@, JView::Array(r.messages@.map_values(|m: CanonicalMessage| canonical_openai_view(m)))),
            ("stream"@, JView::Bool(r.stream)),
        ]);
        assert(f1 =~= f0 + (if r.tools@.len() > 0 {
            seq![
                ("tools"@, JView::Array(r.tools@.map_values(|t: CanonicalToolDefinition| canonical_tool_view(t)))),
                ("tool_choice"@, tool_choice_view(r.tool_choice)),
            ]
        } else {
            Seq::empty()
        }));
        assert(fields_view(fs@) =~= f2 + (match r.limits.max_output_tokens {
            Some(m) => seq![("max_tokens"@, JView::Number(m))],
            None => Seq::empty(),
        }));
    }
    object(fs)
}

/// The body of a canonical request to an Ollama backend for `model`: the
/// model, the messages and the request's stream flag; the tools where there
/// are some; and the output token limit as the `num_predict` option.
pub open spec fn canonical_ollama_body_view(model: Seq<char>, r: CanonicalRequest) -> JView {
    JView::Object(
        seq![
            ("model"@, JView::Str(model)),
            ("messages"@, JView::Array(r.messages@.map_values(|m: CanonicalMessage| canonical_ollama_view(m)))),
            ("stream"@, JView::Bool(r.stream)),
        ] + (if r.tools@.len() > 0 {
            seq![("tools"@, JView::Array(r.tools@.map_values(|t: CanonicalToolDefinition| canonical_tool_view(t))))]
        } else {
            Seq::empty()
        }) + (match r.limits.max_output_tokens {
            Some(m) => seq![("options"@, JView::Object(seq![("num_predict"@, JView::Number(m))]))],
            None => Seq::empty(),
        }),
    )
}

/// The body of a canonical request to an Ollama backend.
pub fn build_canonical_ollama_body(model: &str, req: &CanonicalRequest) -> (o: JsonOut)
    ensures
        jview(o) == canonical_ollama_body_view(model@, *req),
{
    let mut fs: Vec<JsonField> = Vec::new();
    push_field(&mut fs, "model", jstr(model));
    let messages = canonical_messages_to_ollama(&req.messages);
    push_field(&mut fs, "messages", array(messages));
    push_field(&mut fs, "stream", JsonOut::Bool(req.stream));
    let ghost f0 = fields_view(fs@);
    if req.tools.len() > 0 {
        let tools = canonical_tools_to_wire(&req.tools);
        push_field(&mut fs, "tools", array(tools));
    }
    let ghost f1 = fields_view(fs@);
    match req.limits.max_output_tokens {
        Some(m) => {
            let mut opts: Vec<JsonField> = Vec::new();
            push_field(&mut opts, "num_predict", JsonOut::Number(m));
            assert(fields_view(opts@) =~= seq![("num_predict"@, JView::Number(m))]);
            push_field(&mut fs, "options", object(opts));
        },
        None => {},
    }
    proof {
        let r = *req;
        assert(f0 =~= seq![
            ("model"@, JView::Str(model@)),
            ("messages"@, JView::Array(r.messages@.map_values(|m: CanonicalMessage| canonical_ollama_view(m)))),
            ("stream"@, JView::Bool(r.stream)),
        ]);
        assert(f1 =~= f0 + (if r.tools@.len() > 0 {
            seq![("tools"@, JView::Array(r.tools@.map_values(|t: CanonicalToolDefinition| canonical_tool_view(t))))]
        } else {
            Seq::empty()
        }));
        assert(fields_view(fs@) =~= f1 + (match r.limits.max_output_tokens {
            Some(m) => seq![("options"@, JView::Object(seq![("num_predict"@, JView::Number(m))]))],
            None => Seq::empty(),
        }));
    }
    object(fs)
}

} // verus!
