use beluna::chat_capabilities::TurnPayload;
use beluna::chat_types::{ChatMessage, ChatRole, ContentPart, FinishReason, MessageToolCall, OutputMode, TurnLimits};
use beluna::endpoints::{ollama_chat_url, openai_chat_url, responses_url};
use beluna::error::GatewayErrorKind;
use beluna::json::JsonText;
use beluna::json_tree::{JsonMember, JsonNode, JsonNumber, JsonValue};
use beluna::message::{Message, ToolCallMessage, ToolCallResultMessage};
use beluna::metadata::Metadata;
use beluna::responses::{
    build_request_body, messages_to_responses, parallel_tool_calls_enabled, parse_finish_reason,
    parse_output_text, parse_responses_reply, parse_tool_calls, parts_to_text,
};
use beluna::tool::ChatToolDefinition;
use beluna::turn::Turn;
use beluna::types::{AdapterContext, BackendCapabilities, BackendDialect, BackendProfile, CredentialRef, ResolvedCredential};
use beluna::wire_out::JsonOut;
use serde_json::Value;

fn node(v: &Value) -> JsonNode {
    let value = match v {
        Value::Null => JsonValue::Null,
        Value::Bool(b) => JsonValue::Bool(*b),
        Value::Number(n) => JsonValue::Number(JsonNumber { as_u64: n.as_u64() }),
        Value::String(s) => JsonValue::Str(s.clone()),
        Value::Array(a) => JsonValue::Array(a.iter().map(node).collect()),
        Value::Object(m) => JsonValue::Object(
            m.iter().map(|(k, v)| JsonMember { key: k.clone(), node: node(v) }).collect(),
        ),
    };
    JsonNode { value, text: v.to_string() }
}

fn parse(text: &str) -> JsonNode {
    node(&serde_json::from_str::<Value>(text).unwrap())
}

fn render(o: &JsonOut) -> Value {
    match o {
        JsonOut::Null => Value::Null,
        JsonOut::Bool(b) => Value::Bool(*b),
        JsonOut::Number(n) => Value::from(*n),
        JsonOut::Str(s) => Value::String(s.clone()),
        JsonOut::Raw(t) => serde_json::from_str(&t.text).unwrap(),
        JsonOut::Array(a) => Value::Array(a.iter().map(render).collect()),
        JsonOut::Object(fs) => {
            let mut m = serde_json::Map::new();
            for f in fs {
                m.insert(f.key.clone(), render(&f.value));
            }
            Value::Object(m)
        }
    }
}

fn json(text: &str) -> Value {
    serde_json::from_str(text).unwrap()
}

fn msg(role: ChatRole, parts: Vec<&str>) -> ChatMessage {
    ChatMessage {
        role,
        parts: parts.into_iter().map(|t| ContentPart::Text { text: t.to_string() }).collect(),
        tool_call_id: None,
        tool_name: None,
        tool_calls: vec![],
    }
}

fn items(text: &str) -> Vec<JsonNode> {
    match parse(text).value {
        JsonValue::Array(a) => a,
        _ => panic!("array expected"),
    }
}

#[test]
fn parts_are_joined_by_lines() {
    let parts = vec![ContentPart::Text { text: "a".into() }, ContentPart::ImageUrl { url: "u".into(), mime_type: None }];
    assert_eq!(parts_to_text(&parts), "a\nu");
    assert_eq!(parts_to_text(&vec![]), "");
}

#[test]
fn single_system_message_becomes_instructions() {
    let mut assistant = msg(ChatRole::Assistant, vec![]);
    assistant.tool_calls = vec![MessageToolCall { id: "c".into(), name: "f".into(), arguments_json: "{}".into() }];
    let mut tool = msg(ChatRole::Tool, vec!["out"]);
    tool.tool_call_id = Some("c".into());
    let ms = vec![msg(ChatRole::System, vec!["be", "kind"]), msg(ChatRole::User, vec!["hi"]), assistant, tool];
    let (instructions, input) = messages_to_responses(&ms).unwrap();
    assert_eq!(instructions.as_deref(), Some("be\nkind"));
    let values: Vec<Value> = input.iter().map(render).collect();
    assert_eq!(values, vec![
        json(r#"{"type":"message","role":"user","content":"hi"}"#),
        json(r#"{"type":"function_call","call_id":"c","name":"f","arguments":"{}"}"#),
        json(r#"{"type":"function_call_output","call_id":"c","output":"out"}"#),
    ]);
    let two = vec![msg(ChatRole::System, vec!["a"]), msg(ChatRole::System, vec!["b"])];
    let (instructions, input) = messages_to_responses(&two).unwrap();
    assert!(instructions.is_none());
    assert_eq!(input.len(), 2);
}

#[test]
fn tool_message_without_call_id_is_refused() {
    let err = messages_to_responses(&vec![msg(ChatRole::Tool, vec!["x"])]).unwrap_err();
    assert_eq!(err.kind, GatewayErrorKind::InvalidRequest);
    assert_eq!(err.message, "responses tool message requires tool_call_id");
}

#[test]
fn responses_body_is_built() {
    let payload = TurnPayload {
        messages: vec![msg(ChatRole::User, vec!["q"])],
        tools: vec![ChatToolDefinition { name: "f".into(), description: None, input_schema: JsonText { text: "{}".into() } }],
        output_mode: OutputMode::JsonSchema { name: "n".into(), schema: JsonText { text: "{}".into() }, strict: false },
        limits: TurnLimits { max_output_tokens: Some(10), max_request_time_ms: None },
        enable_thinking: false,
        metadata: Metadata::new(),
    };
    let body = render(&build_request_body("m", &payload, true).unwrap());
    assert_eq!(body, json(r#"{"model":"m","input":[{"type":"message","role":"user","content":"q"}],"store":false,"tools":[{"type":"function","name":"f","parameters":{}}],"tool_choice":"auto","parallel_tool_calls":true,"text":{"format":{"type":"json_schema","name":"n","schema":{},"strict":false}},"max_output_tokens":10}"#));
}

#[test]
fn reply_text_and_calls_are_read() {
    let out = items(r#"[{"type":"message","content":[{"type":"output_text","text":"a"},{"type":"refusal","text":"no"},{"type":"text","text":"b"}]},{"type":"function_call","name":"f"},{"type":"function_call","id":"i2","arguments":{"z":1}}]"#);
    assert_eq!(parse_output_text(&out), "ab");
    let calls = parse_tool_calls(&out);
    assert_eq!(calls.len(), 2);
    assert_eq!(calls[0].id, "call_0");
    assert_eq!(calls[0].arguments_json, "{}");
    assert_eq!(calls[1].id, "i2");
    assert_eq!(calls[1].name, "unknown_tool");
    assert_eq!(calls[1].arguments_json, r#"{"z":1}"#);
}

#[test]
fn finish_reason_follows_status() {
    assert_eq!(parse_finish_reason(&parse(r#"{"status":"completed"}"#), true), FinishReason::ToolCalls);
    assert_eq!(parse_finish_reason(&parse(r#"{"status":"completed"}"#), false), FinishReason::Stop);
    assert_eq!(parse_finish_reason(&parse(r#"{"status":"incomplete","incomplete_details":{"reason":"max_output_tokens"}}"#), false), FinishReason::Length);
    assert_eq!(parse_finish_reason(&parse(r#"{"status":"incomplete"}"#), false), FinishReason::Other("incomplete".into()));
    assert_eq!(parse_finish_reason(&parse(r#"{"status":"failed"}"#), false), FinishReason::Other("failed".into()));
    assert_eq!(parse_finish_reason(&parse(r#"{}"#), false), FinishReason::Stop);
}

#[test]
fn whole_reply_is_read_or_refused() {
    let err = parse_responses_reply(&parse(r#"{"error":{"message":"bad"}}"#), "r1").unwrap_err();
    assert_eq!(err.kind, GatewayErrorKind::BackendPermanent);
    assert_eq!(err.message, r#"openai responses returned error: {"message":"bad"}"#);
    assert_eq!(err.backend_id.as_deref(), Some("r1"));
    let err = parse_responses_reply(&parse(r#"{"error":null}"#), "r1").unwrap_err();
    assert_eq!(err.message, "openai responses payload missing output");
    let r = parse_responses_reply(&parse(r#"{"output":[],"output_text":"fallback","usage":{"input_tokens":1,"total_tokens":3},"status":"completed"}"#), "r1").unwrap();
    assert_eq!(r.output_text, "fallback");
    assert!(r.tool_calls.is_empty());
    assert_eq!(r.usage.as_ref().unwrap().total_tokens, Some(3));
    assert_eq!(r.finish_reason, FinishReason::Stop);
}

#[test]
fn parallel_tool_calls_default_to_allowed() {
    assert!(parallel_tool_calls_enabled(None));
    let caps = BackendCapabilities {
        streaming: true,
        tool_calls: true,
        parallel_tool_calls: false,
        json_mode: false,
        json_schema_mode: false,
        vision: false,
        resumable_streaming: false,
    };
    assert!(!parallel_tool_calls_enabled(Some(&caps)));
}

fn ctx(endpoint: Option<&str>) -> AdapterContext {
    AdapterContext {
        backend_id: "b".into(),
        model: "m".into(),
        profile: BackendProfile {
            id: "b".into(),
            dialect: BackendDialect::OpenAiCompatible,
            endpoint: endpoint.map(|e| e.to_string()),
            credential: CredentialRef::NoCredential,
            models: vec![],
            capabilities: None,
            copilot: None,
        },
        credential: ResolvedCredential { auth_header: None, extra_headers: vec![], opaque: vec![] },
        timeout_ms: 1000,
        request_id: "r".into(),
    }
}

#[test]
fn endpoint_urls_drop_trailing_slashes() {
    assert_eq!(openai_chat_url(&ctx(Some("http://h/v1//"))).unwrap(), "http://h/v1/chat/completions");
    assert_eq!(ollama_chat_url(&ctx(Some("http://h"))).unwrap(), "http://h/api/chat");
    assert_eq!(responses_url(&ctx(Some("http://h/"))).unwrap(), "http://h/responses");
    let err = ollama_chat_url(&ctx(None)).unwrap_err();
    assert_eq!(err.message, "ollama backend requires endpoint");
    assert_eq!(err.backend_id.as_deref(), Some("b"));
}

#[test]
fn tool_result_payloads_keep_the_last_per_call() {
    let mut t = Turn::new(1);
    let call = |id: &str, call: &str| {
        Message::ToolCall(ToolCallMessage {
            id: format!("call-{id}"),
            created_at_ms: 0,
            call_id: call.into(),
            name: "f".into(),
            arguments_json: "{}".into(),
        })
    };
    let result = |id: &str, call: &str, text: &str| {
        Message::ToolCallResult(ToolCallResultMessage {
            id: format!("result-{id}"),
            created_at_ms: 0,
            call_id: call.into(),
            name: "f".into(),
            payload: JsonText { text: text.into() },
        })
    };
    t.append_one(call("1", "a"), Some((result("1", "a", "1"), false))).unwrap();
    t.append_one(call("2", "b"), Some((result("2", "b", "2"), false))).unwrap();
    t.append_one(call("3", "a"), Some((result("3", "a", "3"), false))).unwrap();
    let by_call = t.tool_result_payload_by_call_id();
    assert_eq!(by_call.get("a").map(|s| s.as_str()), Some("3"));
    assert_eq!(by_call.get("b").map(|s| s.as_str()), Some("2"));
    assert_eq!(by_call.get("zzz"), None);
}
