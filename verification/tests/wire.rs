use beluna::canonical::{
    BackendRawEvent as CanonicalEvent, CanonicalContentPart, CanonicalLimits, CanonicalMessage,
    CanonicalOutputMode, CanonicalRequest, CanonicalRole, CanonicalToolChoice, CanonicalToolDefinition,
};
use beluna::canonical_wire::{
    build_canonical_ollama_body, build_canonical_openai_body, canonical_messages_to_ollama,
    canonical_messages_to_openai, canonical_tools_to_wire, tool_choice_to_openai,
};
use beluna::chat_capabilities::TurnPayload;
use beluna::chat_replies::{
    parse_ollama_complete_response, parse_ollama_stream_delta, parse_openai_complete_response,
    parse_openai_stream_delta, tool_calls_from_message,
};
use beluna::chat_types::{
    BackendRawEvent, ChatMessage, ChatRole, ContentPart, FinishReason, MessageToolCall, OutputMode,
    TurnLimits,
};
use beluna::chat_wire::{build_ollama_body, build_openai_body, messages_to_ollama, messages_to_openai};
use beluna::cli_client::{
    act_step, extract_text_from_payload, plain_text_descriptor, typed_message, user_message_descriptor,
    user_message_payload, ActStep, NeuralSignalType,
};
use beluna::copilot::{
    build_panel_completion_params, collect_completion, extract_completion_text, status_is_ready,
    GitHubCopilotAdapter,
};
use beluna::error::{GatewayError, GatewayErrorKind};
use beluna::json::JsonText;
use beluna::json_tree::{get, JsonMember, JsonNode, JsonNumber, JsonValue};
use beluna::metadata::{parse_u64, Metadata};
use beluna::replies::{parse_non_stream_payload, parse_ollama_payload, parse_stream_payload, parse_usage};
use beluna::rpc_frame::{
    classify_reply, content_length, frame_header, notification_body, parse_header_line, request_body,
    HeaderLine, RpcReply,
};
use beluna::tool::ChatToolDefinition;
use beluna::types::BackendDialect;
use beluna::wire_out::JsonOut;
use serde_json::Value;

fn node(v: &Value) -> JsonNode {
    let value = match v {
        Value::Null => JsonValue::Null,
        Value::Bool(b) => JsonValue::Bool(*b),
        Value::Number(n) => JsonValue::Number(JsonNumber { as_u64: n.as_u64() }),
        Value::String(s) => JsonValue::Str(s.clone()),
        Value::Array(a) => JsonValue::Array(a.iter().map(node).collect()),
        Value::Object(m) => JsonValue::Object(
            m.iter().map(|(k, v)| JsonMember { key: k.clone(), node: node(v) }).collect(),
        ),
    };
    JsonNode { value, text: v.to_string() }
}

fn parse(text: &str) -> JsonNode {
    node(&serde_json::from_str::<Value>(text).unwrap())
}

fn render(o: &JsonOut) -> Value {
    match o {
        JsonOut::Null => Value::Null,
        JsonOut::Bool(b) => Value::Bool(*b),
        JsonOut::Number(n) => Value::from(*n),
        JsonOut::Str(s) => Value::String(s.clone()),
        JsonOut::Raw(t) => serde_json::from_str(&t.text).unwrap(),
        JsonOut::Array(a) => Value::Array(a.iter().map(render).collect()),
        JsonOut::Object(fs) => {
            let mut m = serde_json::Map::new();
            for f in fs {
                m.insert(f.key.clone(), render(&f.value));
            }
            Value::Object(m)
        }
    }
}

fn json(text: &str) -> Value {
    serde_json::from_str(text).unwrap()
}

fn text_msg(role: ChatRole, text: &str) -> ChatMessage {
    ChatMessage {
        role,
        parts: vec![ContentPart::Text { text: text.to_string() }],
        tool_call_id: None,
        tool_name: None,
        tool_calls: vec![],
    }
}

#[test]
fn json_lookup_follows_members() {
    let n = parse(r#"{"a":{"b":"x"},"n":7}"#);
    let b = get(get(Some(&n), "a"), "b");
    assert!(matches!(b.map(|x| &x.value), Some(JsonValue::Str(s)) if s == "x"));
    assert!(get(Some(&n), "missing").is_none());
    assert!(get(get(Some(&n), "n"), "b").is_none());
}

#[test]
fn openai_usage_takes_either_naming() {
    let u = parse_usage(&parse(r#"{"input_tokens":3,"completion_tokens":4,"total_tokens":7}"#));
    assert_eq!(u.input_tokens, Some(3));
    assert_eq!(u.output_tokens, Some(4));
    assert_eq!(u.total_tokens, Some(7));
    assert_eq!(json(&u.provider_usage_raw.unwrap().text), json(r#"{"input_tokens":3,"completion_tokens":4,"total_tokens":7}"#));
}

#[test]
fn openai_stream_chunk_becomes_events() {
    let p = parse(
        r#"{"usage":{"prompt_tokens":1},"choices":[{"delta":{"content":"Hel","tool_calls":[{"function":{"name":"f","arguments":"{\"a\""}},{"id":"x","function":{}}]},"finish_reason":"length"}]}"#,
    );
    let events = parse_stream_payload(&p, "b1").unwrap();
    assert_eq!(events.len(), 5);
    assert!(matches!(&events[0], CanonicalEvent::Usage { usage } if usage.input_tokens == Some(1)));
    assert!(matches!(&events[1], CanonicalEvent::OutputTextDelta { delta } if delta == "Hel"));
    assert!(matches!(&events[2], CanonicalEvent::ToolCallDelta { call_id, name, arguments_delta }
        if call_id == "call_0" && name.as_deref() == Some("f") && arguments_delta == "{\"a\""));
    assert!(matches!(&events[3], CanonicalEvent::ToolCallDelta { call_id, name, arguments_delta }
        if call_id == "x" && name.is_none() && arguments_delta.is_empty()));
    assert!(matches!(&events[4], CanonicalEvent::Completed { finish_reason: FinishReason::Length }));
}

#[test]
fn openai_payload_without_choices_is_a_protocol_violation() {
    let err = parse_stream_payload(&parse(r#"{"id":"x"}"#), "b1").unwrap_err();
    assert_eq!(err.kind, GatewayErrorKind::ProtocolViolation);
    assert_eq!(err.message, "openai-compatible stream payload missing choices");
    assert_eq!(err.backend_id.as_deref(), Some("b1"));
    assert!(!err.retryable);
    let err = parse_non_stream_payload(&parse(r#"{"choices":[]}"#), "b2").unwrap_err();
    assert_eq!(err.message, "openai-compatible response missing choices");
}

#[test]
fn openai_whole_reply_becomes_events() {
    let p = parse(
        r#"{"choices":[{"message":{"content":"","tool_calls":[{"function":{"name":"f","arguments":{"k":1}}},{"id":"c2","function":{"arguments":"{}"}}]},"finish_reason":"tool_calls"}]}"#,
    );
    let events = parse_non_stream_payload(&p, "b").unwrap();
    assert_eq!(events.len(), 3);
    assert!(matches!(&events[0], CanonicalEvent::ToolCallReady { call }
        if call.id == "call_0" && call.name == "f" && call.arguments_json == r#"{"k":1}"#));
    assert!(matches!(&events[1], CanonicalEvent::ToolCallReady { call }
        if call.id == "c2" && call.name == "unknown_tool" && call.arguments_json == "{}"));
    assert!(matches!(&events[2], CanonicalEvent::Completed { finish_reason: FinishReason::ToolCalls }));
}

#[test]
fn ollama_final_chunk_adds_usage_and_stop() {
    let p = parse(r#"{"message":{"content":"hi","tool_calls":[{"function":{"name":"g","arguments":"s"}}]},"done":true,"prompt_eval_count":2,"eval_count":3}"#);
    let events = parse_ollama_payload(&p).unwrap();
    assert_eq!(events.len(), 4);
    assert!(matches!(&events[1], CanonicalEvent::ToolCallReady { call }
        if call.id == "tool_call_0" && call.arguments_json == "\"s\""));
    assert!(matches!(&events[2], CanonicalEvent::Usage { usage } if usage.total_tokens == Some(5)));
    assert!(matches!(&events[3], CanonicalEvent::Completed { finish_reason: FinishReason::Stop }));
    let partial = parse_ollama_payload(&parse(r#"{"message":{"content":""},"done":false}"#)).unwrap();
    assert!(partial.is_empty());
}

#[test]
fn chat_openai_complete_response_reads_first_choice() {
    let p = parse(r#"{"choices":[{"message":{"content":"answer"},"finish_reason":"weird"}],"usage":{"prompt_tokens":9}}"#);
    let r = parse_openai_complete_response(&p, "b", "m").unwrap();
    assert_eq!(r.output_text, "answer");
    assert_eq!(r.backend_identity.dialect, BackendDialect::OpenAiCompatible);
    assert_eq!(r.backend_identity.model, "m");
    assert_eq!(r.finish_reason, FinishReason::Other("weird".to_string()));
    assert_eq!(r.usage.unwrap().input_tokens, Some(9));
    assert!(r.tool_calls.is_empty());
}

#[test]
fn chat_ollama_complete_response_needs_done() {
    let err = parse_ollama_complete_response(&parse(r#"{"message":{"content":"x"}}"#), "b", "m").unwrap_err();
    assert_eq!(err.message, "ollama complete response missing done:true");
    let r = parse_ollama_complete_response(&parse(r#"{"done":true,"eval_count":4}"#), "b", "m").unwrap();
    assert_eq!(r.output_text, "");
    assert_eq!(r.finish_reason, FinishReason::Stop);
    let u = r.usage.unwrap();
    assert_eq!(u.output_tokens, Some(4));
    assert_eq!(u.total_tokens, None);
}

#[test]
fn chat_stream_deltas_match_the_gateway_readers() {
    let p = parse(r#"{"choices":[{"delta":{"content":"a"},"finish_reason":"stop"}]}"#);
    let events = parse_openai_stream_delta(&p, "b").unwrap();
    assert_eq!(events.len(), 2);
    assert!(matches!(&events[0], BackendRawEvent::OutputTextDelta { delta } if delta == "a"));
    assert!(matches!(&events[1], BackendRawEvent::Completed { finish_reason: FinishReason::Stop }));
    let o = parse_ollama_stream_delta(&parse(r#"{"message":{"content":"z"},"done":true}"#)).unwrap();
    assert_eq!(o.len(), 3);
    let calls = tool_calls_from_message(Some(&parse(r#"{"tool_calls":[{"id":"q","function":{"name":"n","arguments":"raw"}}]}"#)), "call_0", true);
    assert_eq!(calls.len(), 1);
    assert_eq!(calls[0].arguments_json, "raw");
}

#[test]
fn openai_messages_and_body_are_built() {
    let mut assistant = text_msg(ChatRole::Assistant, "a");
    assistant.tool_calls = vec![MessageToolCall { id: "c".into(), name: "f".into(), arguments_json: "{}".into() }];
    let mut tool = text_msg(ChatRole::Tool, "r");
    tool.tool_call_id = Some("c".into());
    tool.tool_name = Some("f".into());
    let multi = ChatMessage {
        role: ChatRole::User,
        parts: vec![
            ContentPart::Text { text: "look".into() },
            ContentPart::ImageUrl { url: "http://i".into(), mime_type: Some("image/png".into()) },
        ],
        tool_call_id: None,
        tool_name: None,
        tool_calls: vec![],
    };
    let wire = messages_to_openai(&vec![assistant, tool, multi]);
    let values: Vec<Value> = wire.iter().map(render).collect();
    assert_eq!(values[0], json(r#"{"role":"assistant","content":"a","tool_calls":[{"id":"c","type":"function","function":{"name":"f","arguments":"{}"}}]}"#));
    assert_eq!(values[1], json(r#"{"role":"tool","content":"r","tool_call_id":"c","name":"f"}"#));
    assert_eq!(values[2], json(r#"{"role":"user","content":[{"type":"text","text":"look"},{"type":"input_image","image_url":"http://i","mime_type":"image/png"}]}"#));
    let payload = TurnPayload {
        messages: vec![text_msg(ChatRole::User, "q")],
        tools: vec![ChatToolDefinition { name: "f".into(), description: Some("d".into()), input_schema: JsonText { text: r#"{"type":"object"}"#.into() } }],
        output_mode: OutputMode::JsonObject,
        limits: TurnLimits { max_output_tokens: Some(32), max_request_time_ms: None },
        enable_thinking: false,
        metadata: Metadata::new(),
    };
    let body = render(&build_openai_body("m", &payload, true));
    assert_eq!(body, json(r#"{"model":"m","messages":[{"role":"user","content":"q"}],"stream":true,"tools":[{"type":"function","function":{"name":"f","description":"d","parameters":{"type":"object"}}}],"tool_choice":"auto","response_format":{"type":"json_object"},"max_tokens":32,"thinking":{"type":"disabled"},"enable_thinking":false}"#));
}

#[test]
fn openai_body_with_thinking_and_schema() {
    let payload = TurnPayload {
        messages: vec![],
        tools: vec![],
        output_mode: OutputMode::JsonSchema { name: "s".into(), schema: JsonText { text: "{}".into() }, strict: true },
        limits: TurnLimits { max_output_tokens: None, max_request_time_ms: None },
        enable_thinking: true,
        metadata: Metadata::new(),
    };
    let body = render(&build_openai_body("m", &payload, false));
    assert_eq!(body, json(r#"{"model":"m","messages":[],"stream":false,"response_format":{"type":"json_schema","json_schema":{"name":"s","schema":{},"strict":true}},"thinking":{"type":"enabled","budget_tokens":10000},"extra_body":{"enable_thinking":"enabled","thinking_budget":"payload.limits.max_output_tokens.unwrap_or(10000)"},"enable_thinking":true}"#));
}

#[test]
fn ollama_messages_join_parts_and_body_has_options() {
    let m = ChatMessage {
        role: ChatRole::User,
        parts: vec![ContentPart::Text { text: "a".into() }, ContentPart::Json { value: JsonText { text: "{\"k\":2}".into() } }],
        tool_call_id: None,
        tool_name: None,
        tool_calls: vec![],
    };
    let wire: Vec<Value> = messages_to_ollama(&vec![m]).iter().map(render).collect();
    assert_eq!(wire[0], json(r#"{"role":"user","content":"a{\"k\":2}"}"#));
    let payload = TurnPayload {
        messages: vec![],
        tools: vec![],
        output_mode: OutputMode::Text,
        limits: TurnLimits { max_output_tokens: Some(5), max_request_time_ms: None },
        enable_thinking: true,
        metadata: Metadata::new(),
    };
    let body = render(&build_ollama_body("llama", &payload, false));
    assert_eq!(body, json(r#"{"model":"llama","messages":[],"stream":false,"options":{"num_predict":5},"think":true}"#));
}

#[test]
fn canonical_wire_formats() {
    let m = CanonicalMessage {
        role: CanonicalRole::Tool,
        parts: vec![],
        tool_call_id: Some("c".into()),
        tool_name: None,
    };
    let o: Vec<Value> = canonical_messages_to_openai(&vec![m]).iter().map(render).collect();
    assert_eq!(o[0], json(r#"{"role":"tool","content":"","tool_call_id":"c"}"#));
    let m2 = CanonicalMessage {
        role: CanonicalRole::User,
        parts: vec![CanonicalContentPart::Text { text: "x".into() }, CanonicalContentPart::Text { text: "y".into() }],
        tool_call_id: None,
        tool_name: None,
    };
    let o2: Vec<Value> = canonical_messages_to_ollama(&vec![m2]).iter().map(render).collect();
    assert_eq!(o2[0], json(r#"{"role":"user","content":"xy"}"#));
    assert_eq!(render(&tool_choice_to_openai(&CanonicalToolChoice::NoTool)), json(r#""none""#));
    assert_eq!(
        render(&tool_choice_to_openai(&CanonicalToolChoice::Specific { name: "f".into() })),
        json(r#"{"type":"function","function":{"name":"f"}}"#)
    );
    let t: Vec<Value> = canonical_tools_to_wire(&vec![CanonicalToolDefinition { name: "f".into(), description: None, input_schema: JsonText { text: "{}".into() } }]).iter().map(render).collect();
    assert_eq!(t[0], json(r#"{"type":"function","function":{"name":"f","description":null,"parameters":{}}}"#));
}

#[test]
fn rpc_headers_and_replies() {
    assert!(matches!(parse_header_line("\r\n"), HeaderLine::End));
    match parse_header_line("  Content-Length :  42 \r\n") {
        HeaderLine::Header { name, value } => {
            assert_eq!(name, "content-length");
            assert_eq!(value, "42");
        }
        _ => panic!("header expected"),
    }
    assert!(matches!(parse_header_line("garbage\n"), HeaderLine::Other));
    let mut headers = Metadata::new();
    headers.insert("content-length".into(), "42".into());
    assert_eq!(content_length(&headers).unwrap(), 42);
    headers.insert("content-length".into(), "x".into());
    assert_eq!(content_length(&headers).unwrap_err().message, "rpc message missing content-length");
    assert_eq!(frame_header(17), "Content-Length: 17\r\n\r\n");
    assert_eq!(parse_u64("+7"), Some(7));
    let reply = parse(r#"{"id":3,"result":{"ok":true}}"#);
    assert!(matches!(classify_reply(&reply, 4, "m"), RpcReply::Skip));
    assert!(matches!(classify_reply(&reply, 3, "m"), RpcReply::Result(Some(_))));
    let failed = parse(r#"{"id":3,"error":{"code":1}}"#);
    match classify_reply(&failed, 3, "initialize") {
        RpcReply::Failed(e) => {
            assert_eq!(e.kind, GatewayErrorKind::BackendPermanent);
            assert_eq!(e.message, r#"copilot rpc error for 'initialize': {"code":1}"#);
        }
        _ => panic!("failure expected"),
    }
    let req = render(&request_body(1, "ping", JsonOut::Null));
    assert_eq!(req, json(r#"{"jsonrpc":"2.0","id":1,"method":"ping","params":null}"#));
    let note = render(&notification_body("exit", JsonOut::Null));
    assert_eq!(note, json(r#"{"jsonrpc":"2.0","method":"exit","params":null}"#));
}

#[test]
fn copilot_rules() {
    let a = GitHubCopilotAdapter;
    assert_eq!(a.dialect(), BackendDialect::GitHubCopilotSdk);
    assert!(a.static_capabilities().streaming);
    assert!(!a.static_capabilities().tool_calls);
    assert!(status_is_ready(&parse(r#"{"status":"logged_in"}"#)));
    assert!(!status_is_ready(&parse(r#"{"status":"NotSignedIn"}"#)));
    assert!(!status_is_ready(&parse(r#"{"ready":false,"status":"ok"}"#)));
    assert!(status_is_ready(&parse(r#"{}"#)));
    assert_eq!(extract_completion_text(&parse(r#"{"items":[{"text":"t"}]}"#)), Some("t"));
    assert_eq!(extract_completion_text(&parse(r#"{"items":[]}"#)), None);
    assert_eq!(
        render(&build_panel_completion_params("hé")),
        json(r#"{"textDocument":{"uri":"file:///beluna/copilot-synthetic.txt"},"position":{"line":0,"character":3},"context":{"prefix":"hé"}}"#)
    );
    let events = vec![
        BackendRawEvent::OutputTextDelta { delta: "a".into() },
        BackendRawEvent::OutputTextDelta { delta: "b".into() },
        BackendRawEvent::Completed { finish_reason: FinishReason::Length },
        BackendRawEvent::OutputTextDelta { delta: "ignored".into() },
    ];
    let r = collect_completion(events, "cp", "m").unwrap();
    assert_eq!(r.output_text, "ab");
    assert_eq!(r.finish_reason, FinishReason::Length);
    let err = collect_completion(vec![BackendRawEvent::OutputTextDelta { delta: "a".into() }], "cp", "m").unwrap_err();
    assert_eq!(err.message, "copilot once response missing terminal finish reason");
    let failed = GatewayError::new(GatewayErrorKind::Timeout, "slow");
    let err = collect_completion(vec![BackendRawEvent::Failed { error: failed }], "cp", "m").unwrap_err();
    assert_eq!(err.kind, GatewayErrorKind::Timeout);
}

#[test]
fn cli_client_signals_and_acts() {
    let d = plain_text_descriptor("body.cli");
    assert_eq!(d.kind, NeuralSignalType::Act);
    assert_eq!(d.neural_signal_descriptor_id, "present.plain_text");
    assert_eq!(render(&d.payload_schema), json(r#"{"type":"object","required":["text"],"properties":{"text":{"type":"string"}}}"#));
    let u = user_message_descriptor("e");
    assert_eq!(u.kind, NeuralSignalType::Sense);
    assert_eq!(u.endpoint_id, "e");
    assert_eq!(render(&u.payload_schema), json(r#"{"type":"object","required":["kind","text"],"properties":{"kind":{"type":"string"},"text":{"type":"string"},"seq_no":{"type":"integer"},"timestamp_ms":{"type":"integer"}}}"#));
    assert_eq!(typed_message("  hello \n"), Some("hello".to_string()));
    assert_eq!(typed_message("   "), None);
    assert_eq!(render(&user_message_payload("hi", 2, 99)), json(r#"{"kind":"user_message","text":"hi","seq_no":2,"timestamp_ms":99}"#));
    assert_eq!(extract_text_from_payload(&parse(r#"{"response":{"output_text":"deep"}}"#)), Some("deep"));
    assert_eq!(act_step("present.plain_text", "a1", &parse(r#"{"text":"show"}"#)), ActStep::Present("show".into()));
    assert_eq!(act_step("present.plain_text", "a1", &parse(r#"{}"#)), ActStep::Fail("act a1 missing payload text string".into()));
    assert_eq!(
        act_step("other", "a2", &parse(r#"{}"#)),
        ActStep::Unsupported("[warn] unsupported neural_signal_descriptor_id 'other' for act a2".into())
    );
}

fn canonical_request(tools: bool, mode: CanonicalOutputMode, max: Option<u64>) -> CanonicalRequest {
    CanonicalRequest {
        request_id: "r".to_string(),
        route_hint: None,
        messages: vec![CanonicalMessage {
            role: CanonicalRole::User,
            parts: vec![CanonicalContentPart::Text { text: "q".to_string() }],
            tool_call_id: None,
            tool_name: None,
        }],
        tools: if tools {
            vec![CanonicalToolDefinition {
                name: "f".to_string(),
                description: Some("d".to_string()),
                input_schema: JsonText { text: "{\"type\":\"object\"}".to_string() },
            }]
        } else {
            vec![]
        },
        tool_choice: CanonicalToolChoice::Required,
        output_mode: mode,
        limits: CanonicalLimits { max_output_tokens: max, max_request_time_ms: None },
        metadata: Metadata::new(),
        cost_attribution_id: None,
        stream: true,
    }
}

#[test]
fn canonical_openai_body_carries_choice_format_and_limit() {
    let req = canonical_request(true, CanonicalOutputMode::JsonObject, Some(32));
    let body = render(&build_canonical_openai_body("m", &req));
    assert_eq!(body, json(r#"{"model":"m","messages":[{"role":"user","content":"q"}],"stream":true,"tools":[{"type":"function","function":{"name":"f","description":"d","parameters":{"type":"object"}}}],"tool_choice":"required","response_format":{"type":"json_object"},"max_tokens":32}"#));
    let req = canonical_request(
        false,
        CanonicalOutputMode::JsonSchema { name: "s".into(), schema: JsonText { text: "{}".into() }, strict: false },
        None,
    );
    let body = render(&build_canonical_openai_body("m", &req));
    assert_eq!(body, json(r#"{"model":"m","messages":[{"role":"user","content":"q"}],"stream":true,"response_format":{"type":"json_schema","json_schema":{"name":"s","schema":{},"strict":false}}}"#));
}

#[test]
fn canonical_ollama_body_has_tools_and_options() {
    let req = canonical_request(true, CanonicalOutputMode::Text, Some(5));
    let body = render(&build_canonical_ollama_body("llama", &req));
    assert_eq!(body, json(r#"{"model":"llama","messages":[{"role":"user","content":"q"}],"stream":true,"tools":[{"type":"function","function":{"name":"f","description":"d","parameters":{"type":"object"}}}],"options":{"num_predict":5}}"#));
    let req = canonical_request(false, CanonicalOutputMode::JsonObject, None);
    let body = render(&build_canonical_ollama_body("llama", &req));
    assert_eq!(body, json(r#"{"model":"llama","messages":[{"role":"user","content":"q"}],"stream":true}"#));
}
