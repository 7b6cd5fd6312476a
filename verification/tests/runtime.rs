use beluna::afferent::{queue_capacity, AfferentGate, AfferentPathwayErrorKind};
use beluna::body::{
    build_shell_result_payload, shell_outcome, shell_precheck, truncate_to_text,
    web_fetch_outcome, web_rejection, web_scheme_allowed, EndpointExecutionOutcome, WebFailure, ShellExecRequest, ShellExecution, ShellLimits,
    WebFetchRequest, WebLimits,
};
use beluna::budget::BudgetEnforcer;
use beluna::canonical::{
    redact_metadata, BackendRawEvent, BelunaContentPart, BelunaMessage, BelunaRole,
    BelunaToolDefinition, CanonicalLimits, CanonicalOutputMode, CanonicalRequest,
    CanonicalToolChoice, ChatEvent, ChatRequest, OutputMode, RequestLimitOverrides,
    RequestNormalizer, ResponseNormalizer, ToolChoice,
};
use beluna::capabilities::CapabilityGuard;
use beluna::chat_types::{FinishReason, UsageStats};
use beluna::dispatch::{next_request_id, DispatchAttempts};
use beluna::error::{GatewayError, GatewayErrorKind};
use beluna::frames::{extract_ndjson_frames, extract_sse_frames};
use beluna::json::JsonText;
use beluna::metadata::Metadata;
use beluna::reliability::ReliabilityLayer;
use beluna::tool::{resolve_tools, validate_tool, ChatToolDefinition, ToolOverride};
use beluna::types::{BackendCapabilities, BudgetConfig, ReliabilityConfig, RetryPolicy};

fn tool(name: &str, schema: &str) -> ChatToolDefinition {
    ChatToolDefinition { name: name.to_string(), description: None, input_schema: JsonText { text: schema.to_string() } }
}

#[test]
fn tool_validation() {
    assert!(validate_tool(&tool("t", "{\"type\":\"object\",\"properties\":{}}")).is_ok());
    assert_eq!(validate_tool(&tool(" ", "{}")).unwrap_err().message, "tool name must not be empty");
    assert_eq!(
        validate_tool(&tool("t", "[1]")).unwrap_err().message,
        "tool 't' input_schema must be a JSON object"
    );
    assert_eq!(
        validate_tool(&tool("t", "{\"type\":\"object\",\"zzz\":1,\"bad\":2}")).unwrap_err().message,
        "tool 't' input_schema contains unsupported keyword 'bad'"
    );
}

#[test]
fn tool_overrides() {
    let base = vec![tool("a", "{}"), tool("b", "{}")];
    let out = resolve_tools(
        &base,
        &vec![
            ToolOverride::SetTool(tool("a", "{\"type\":\"string\"}")),
            ToolOverride::SetTool(tool("c", "{}")),
            ToolOverride::Remove("b".to_string()),
        ],
    );
    let names: Vec<&str> = out.iter().map(|t| t.name.as_str()).collect();
    assert_eq!(names, vec!["a", "c"]);
    assert_eq!(out[0].input_schema.text, "{\"type\":\"string\"}");
}

fn message(role: BelunaRole, call: Option<&str>, name: Option<&str>) -> BelunaMessage {
    BelunaMessage {
        role,
        parts: vec![BelunaContentPart::Text { text: "x".to_string() }],
        tool_call_id: call.map(|s| s.to_string()),
        tool_name: name.map(|s| s.to_string()),
    }
}

fn chat_request(messages: Vec<BelunaMessage>) -> ChatRequest {
    ChatRequest {
        request_id: Some("req-1".to_string()),
        route: Some("fast".to_string()),
        messages,
        tools: vec![],
        tool_choice: ToolChoice::Auto,
        output_mode: OutputMode::JsonObject,
        limits: RequestLimitOverrides { max_output_tokens: Some(10), max_request_time_ms: None },
        metadata: Metadata::new(),
        cost_attribution_id: None,
    }
}

#[test]
fn normalizer_checks_and_maps() {
    let n = RequestNormalizer;
    assert_eq!(n.normalize(chat_request(vec![]), false).unwrap_err().message, "messages must not be empty");
    assert_eq!(
        n.normalize(chat_request(vec![message(BelunaRole::Tool, None, Some("t"))]), false)
            .unwrap_err()
            .message,
        "tool role message must include tool_call_id"
    );
    assert_eq!(
        n.normalize(chat_request(vec![message(BelunaRole::User, Some("c"), None)]), false)
            .unwrap_err()
            .message,
        "non-tool message must not include tool_call_id"
    );
    let mut req = chat_request(vec![message(BelunaRole::User, None, None)]);
    req.tools = vec![BelunaToolDefinition {
        name: "t".to_string(),
        description: None,
        input_schema: JsonText { text: "{\"oops\":true}".to_string() },
    }];
    assert_eq!(
        n.normalize(req, false).unwrap_err().message,
        "tool 't' input_schema contains unsupported keyword 'oops'"
    );
    let c = n.normalize(chat_request(vec![message(BelunaRole::Tool, Some("c"), Some("t"))]), true).unwrap();
    assert_eq!(c.request_id, "req-1");
    assert_eq!(c.route_hint.as_deref(), Some("fast"));
    assert!(c.stream);
    assert_eq!(c.limits.max_output_tokens, Some(10));
    assert_eq!(c.tool_choice, CanonicalToolChoice::Auto);
    assert!(matches!(c.output_mode, CanonicalOutputMode::JsonObject));
    let mut anon = chat_request(vec![message(BelunaRole::User, None, None)]);
    anon.request_id = None;
    let id = n.normalize(anon, false).unwrap().request_id;
    let chars: Vec<char> = id.chars().collect();
    assert_eq!(chars.len(), 36);
    for (i, c) in chars.iter().enumerate() {
        if i == 8 || i == 13 || i == 18 || i == 23 {
            assert_eq!(*c, '-');
        } else {
            assert!(c.is_ascii_digit() || ('a'..='f').contains(c));
        }
    }
    assert_eq!(chars[14], '7');
    assert!(matches!(chars[19], '8' | '9' | 'a' | 'b'));
}

#[test]
fn metadata_redaction() {
    let mut m = Metadata::new();
    m.insert("API_Key".to_string(), "s3cret".to_string());
    m.insert("authToken".to_string(), "t".to_string());
    m.insert("organ".to_string(), "eye".to_string());
    let r = redact_metadata(&m);
    assert_eq!(r.get("API_Key").map(|s| s.as_str()), Some("<redacted>"));
    assert_eq!(r.get("authToken").map(|s| s.as_str()), Some("<redacted>"));
    assert_eq!(r.get("organ").map(|s| s.as_str()), Some("eye"));
}

fn canonical(stream: bool, choice: CanonicalToolChoice) -> CanonicalRequest {
    CanonicalRequest {
        request_id: "r".to_string(),
        route_hint: None,
        messages: vec![],
        tools: vec![],
        tool_choice: choice,
        output_mode: CanonicalOutputMode::Text,
        limits: CanonicalLimits::default(),
        metadata: Metadata::new(),
        cost_attribution_id: None,
        stream,
    }
}

#[test]
fn capability_guard() {
    let g = CapabilityGuard;
    let mut caps = BackendCapabilities::default();
    caps.streaming = false;
    assert_eq!(
        g.assert_supported(&canonical(true, CanonicalToolChoice::Auto), &caps).unwrap_err().message,
        "backend does not support streaming requests"
    );
    let err = g
        .assert_supported(&canonical(false, CanonicalToolChoice::Required), &caps)
        .unwrap_err();
    assert_eq!(err.message, "backend does not support tool calling");
    assert_eq!(err.kind, GatewayErrorKind::UnsupportedCapability);
    assert!(g.assert_supported(&canonical(false, CanonicalToolChoice::Auto), &caps).is_ok());
}

#[test]
fn response_events() {
    let n = ResponseNormalizer;
    let ev = n.map_raw(&"req".to_string(), BackendRawEvent::OutputTextDelta { delta: "hi".to_string() }).unwrap();
    match &ev {
        ChatEvent::TextDelta { request_id, delta } => {
            assert_eq!(request_id, "req");
            assert_eq!(delta, "hi");
        }
        _ => panic!("expected text"),
    }
    assert!(ResponseNormalizer::is_output_event(&ev));
    assert!(!ResponseNormalizer::is_tool_event(&ev));
    let done = n
        .map_raw(&"req".to_string(), BackendRawEvent::Completed { finish_reason: FinishReason::Stop })
        .unwrap();
    assert!(ResponseNormalizer::is_terminal_event(&done));
}

fn rel_config() -> ReliabilityConfig {
    ReliabilityConfig {
        request_timeout_ms: 1000,
        max_retries: 2,
        backoff_base_ms: 10,
        backoff_max_ms: 100,
        retry_policy: RetryPolicy::BeforeFirstEventOnly,
        breaker_failure_threshold: 2,
        breaker_open_ms: 500,
    }
}

#[test]
fn breaker_opens_probes_and_closes() {
    let mut layer = ReliabilityLayer::new(rel_config());
    assert!(layer.ensure_backend_allowed("b", 0).is_ok());
    layer.record_failure("b", true, 100);
    assert!(layer.ensure_backend_allowed("b", 101).is_ok());
    layer.record_failure("b", true, 200);
    let err = layer.ensure_backend_allowed("b", 300).unwrap_err();
    assert_eq!(err.kind, GatewayErrorKind::CircuitOpen);
    assert_eq!(err.message, "circuit breaker is open for backend 'b'");
    assert_eq!(err.backend_id.as_deref(), Some("b"));
    assert!(layer.ensure_backend_allowed("other", 300).is_ok());
    assert!(layer.ensure_backend_allowed("b", 700).is_ok());
    assert_eq!(
        layer.ensure_backend_allowed("b", 701).unwrap_err().message,
        "circuit probe is already in-flight for backend 'b'"
    );
    layer.record_success("b");
    assert!(layer.ensure_backend_allowed("b", 702).is_ok());
}

#[test]
fn retry_rules() {
    let layer = ReliabilityLayer::new(rel_config());
    let caps = BackendCapabilities::default();
    let transient = GatewayError::new(GatewayErrorKind::BackendTransient, "x");
    assert!(layer.can_retry(&transient, 0, false, false, &caps, false));
    assert!(!layer.can_retry(&transient, 2, false, false, &caps, false));
    assert!(!layer.can_retry(&transient, 0, true, false, &caps, false));
    assert!(!layer.can_retry(&transient, 0, false, true, &caps, false));
    let bad = GatewayError::new(GatewayErrorKind::InvalidRequest, "x");
    assert!(!layer.can_retry(&bad, 0, false, false, &caps, true));
    assert!(ReliabilityLayer::counts_toward_breaker(&transient));
    assert!(!ReliabilityLayer::counts_toward_breaker(&bad));
}

#[test]
fn dispatch_attempts_retry_then_fail() {
    let mut layer = ReliabilityLayer::new(rel_config());
    let caps = BackendCapabilities::default();
    let mut d = DispatchAttempts::new();
    assert!(d.begin_attempt(&mut layer, "b", 0).is_ok());
    let e = GatewayError::new(GatewayErrorKind::Timeout, "slow");
    assert!(d.on_failure(&mut layer, "b", e, &caps, false, 1).is_none());
    assert_eq!(d.attempt(), 1);
    let e = GatewayError::new(GatewayErrorKind::InvalidRequest, "bad");
    let out = d.on_failure(&mut layer, "b", e, &caps, false, 2).unwrap();
    assert_eq!(out.message, "bad");
    assert_eq!(d.attempt(), 1);
    assert_eq!(next_request_id("b", "m", 3), "b-m-3");
}

#[test]
fn budget_rules() {
    let config = BudgetConfig {
        max_request_time_ms: 1000,
        max_usage_tokens_per_request: Some(50),
        max_concurrency_per_backend: 0,
        rate_smoothing_per_second: None,
    };
    let mut b = BudgetEnforcer::new(config);
    let mut req = canonical(false, CanonicalToolChoice::Auto);
    req.limits.max_output_tokens = Some(60);
    let err = b.pre_dispatch_check(&req, "b1").unwrap_err();
    assert_eq!(err.kind, GatewayErrorKind::BudgetExceeded);
    assert_eq!(err.message, "requested max_output_tokens 60 exceeds configured budget 50");
    req.limits.max_output_tokens = Some(50);
    assert!(b.pre_dispatch_check(&req, "b1").is_ok());
    assert_eq!(b.effective_timeout_ms(&req), 1000);
    req.limits.max_request_time_ms = Some(0);
    assert_eq!(b.effective_timeout_ms(&req), 1);
    assert_eq!(b.concurrency_permits(), 1);
    let usage = |t| UsageStats { input_tokens: None, output_tokens: None, total_tokens: Some(t), provider_usage_raw: None };
    b.observe_event("b1", &ChatEvent::Usage { request_id: "r".to_string(), usage: usage(70) });
    b.observe_event("b1", &ChatEvent::Usage { request_id: "r".to_string(), usage: usage(10) });
    b.observe_event("b1", &ChatEvent::Usage { request_id: "r".to_string(), usage: usage(51) });
    assert_eq!(b.overages("b1"), 2);
    assert_eq!(b.overages("b2"), 0);
}

#[test]
fn sse_frames() {
    let mut buf = "data: {\"a\":1}\r\n: comment\ndata:\ndata: [DONE]\ndata: {\"b\":2}\npartial".to_string();
    let (frames, done) = extract_sse_frames(&mut buf, "b").unwrap();
    assert_eq!(frames.iter().map(|f| f.text.as_str()).collect::<Vec<_>>(), vec!["{\"a\":1}"]);
    assert!(done);
    assert_eq!(buf, "data: {\"b\":2}\npartial");
    let (frames, done) = extract_sse_frames(&mut buf, "b").unwrap();
    assert_eq!(frames.len(), 1);
    assert!(!done);
    assert_eq!(buf, "partial");
    let mut bad = "data: {oops\nrest".to_string();
    let err = extract_sse_frames(&mut bad, "b9").unwrap_err();
    assert_eq!(err.kind, GatewayErrorKind::ProtocolViolation);
    assert!(err.message.starts_with("failed to parse SSE data payload: "));
    assert_eq!(err.backend_id.as_deref(), Some("b9"));
    assert_eq!(bad, "rest");
}

#[test]
fn ndjson_frames() {
    let mut buf = "{\"a\":1}\n\n  \r\n[2]\r\n{\"c\"".to_string();
    let frames = extract_ndjson_frames(&mut buf, "b").unwrap();
    assert_eq!(frames.iter().map(|f| f.text.as_str()).collect::<Vec<_>>(), vec!["{\"a\":1}", "[2]"]);
    assert_eq!(buf, "{\"c\"");
    let mut bad = "nope\n".to_string();
    assert!(extract_ndjson_frames(&mut bad, "b").unwrap_err().message.starts_with("failed to parse NDJSON payload: "));
}

#[test]
fn shell_limits_and_outcomes() {
    let limits = ShellLimits::default();
    let req = ShellExecRequest {
        argv: vec!["/bin/sh".to_string()],
        cwd: None,
        env: Metadata::new(),
        timeout_ms: Some(120_000),
        stdout_max_bytes: Some(32),
        stderr_max_bytes: None,
    };
    assert_eq!(req.timeout_ms(&limits), 60_000);
    assert_eq!(req.stdout_max_bytes(&limits), 32);
    assert_eq!(req.stderr_max_bytes(&limits), 16 * 1024);
    assert!(shell_precheck(&req, "act:1").is_none());
    let empty = ShellExecRequest { argv: vec![" ".to_string()], ..req };
    let out = shell_precheck(&empty, "act:1").unwrap();
    match out.outcome {
        EndpointExecutionOutcome::Rejected { reason_code, reference_id } => {
            assert_eq!(reason_code, "invalid_payload");
            assert_eq!(reference_id, "body.std.shell:missing_argv:act:1");
        }
        _ => panic!("expected rejection"),
    }
    let ok = shell_outcome(
        "act:ok",
        "d",
        "shell.result",
        32,
        32,
        ShellExecution::Finished { exit_code: Some(0), success: true, stdout: b"hello".to_vec(), stderr: vec![] },
    );
    match ok.outcome {
        EndpointExecutionOutcome::Applied { actual_cost_micro, reference_id } => {
            assert_eq!(actual_cost_micro, 0);
            assert_eq!(reference_id, "body.std.shell:applied:act:ok");
        }
        _ => panic!("expected applied"),
    }
    let ok_sense = ok.sense.unwrap();
    assert_eq!(ok_sense.neural_signal_descriptor_id, "shell.result");
    assert_eq!(ok_sense.act_instance_id, "act:ok");
    assert!(ok_sense.payload.contains("success=true; exit_code=0"));
    let bad = shell_outcome(
        "act:bad",
        "d",
        "shell.result",
        32,
        2,
        ShellExecution::Finished { exit_code: Some(7), success: false, stdout: vec![], stderr: b"oops".to_vec() },
    );
    match bad.outcome {
        EndpointExecutionOutcome::Rejected { reason_code, reference_id } => {
            assert_eq!(reason_code, "non_zero_exit");
            assert_eq!(reference_id, "body.std.shell:non_zero_exit:7:act:bad");
        }
        _ => panic!("expected rejection"),
    }
    let sense = bad.sense.unwrap().payload;
    assert!(sense.contains("stderr_truncated=true"));
    assert!(sense.ends_with("stderr:\noo"));
    let timed = shell_outcome("a", "d", "shell.result", 1, 1, ShellExecution::TimedOut);
    assert!(timed.sense.is_none());
}

#[test]
fn shell_payload_text() {
    assert_eq!(
        build_shell_result_payload("a1", "d1", -1, "out", "err", false, true, false),
        "shell_result act_instance_id=a1; neural_signal_descriptor_id=d1; success=false; exit_code=-1; stdout_truncated=false; stderr_truncated=true\nstdout:\nout\nstderr:\nerr"
    );
    assert_eq!(truncate_to_text(&b"abcdef".to_vec(), 3), ("abc".to_string(), true));
    assert_eq!(truncate_to_text(&vec![0xff], 3), ("\u{fffd}".to_string(), false));
}

#[test]
fn web_limits_and_outcome() {
    let limits = WebLimits::default();
    let req = WebFetchRequest {
        url: "https://example.com".to_string(),
        method: None,
        headers: Metadata::new(),
        body_text: None,
        timeout_ms: None,
        response_max_bytes: Some(1_000_000),
    };
    assert_eq!(req.timeout_ms(&limits), 15_000);
    assert_eq!(req.response_max_bytes(&limits), 512 * 1024);
    assert_eq!(req.method(), "GET");
    let out = web_fetch_outcome("a", "d", "web.result", "https://example.com/", 200, &b"body".to_vec(), 2);
    let sense = out.sense.unwrap();
    assert_eq!(sense.neural_signal_descriptor_id, "web.result");
    assert_eq!(sense.act_instance_id, "a");
    assert_eq!(
        sense.payload,
        "web_fetch_result act_instance_id=a; neural_signal_descriptor_id=d; url=https://example.com/; status_code=200; body_truncated=true; success=true\nbody:\nbo"
    );
}

#[test]
fn afferent_pathway() {
    let mut g = AfferentGate::new();
    assert!(g.admit_send().is_ok());
    g.close_gate();
    assert!(!g.is_open());
    let err = g.admit_send().unwrap_err();
    assert_eq!(err.kind, AfferentPathwayErrorKind::Closed);
    assert_eq!(err.message, "sense afferent pathway gate is closed");
    assert_eq!(queue_capacity(0), 1);
    assert_eq!(queue_capacity(5), 5);
}

#[test]
fn web_refusals_and_scheme_rule() {
    let cases = [
        (WebFailure::InvalidPayload, "invalid_payload", "invalid_payload"),
        (WebFailure::InvalidUrl, "invalid_payload", "invalid_url"),
        (WebFailure::UnsupportedScheme, "unsupported_scheme", "unsupported_scheme"),
        (WebFailure::InvalidMethod, "invalid_payload", "invalid_method"),
        (WebFailure::InvalidHeaderName, "invalid_payload", "invalid_header_name"),
        (WebFailure::InvalidHeaderValue, "invalid_payload", "invalid_header_value"),
        (WebFailure::ClientBuild, "network_error", "client_build_error"),
        (WebFailure::Network, "network_error", "network_error"),
        (WebFailure::Timeout, "timeout", "timeout"),
        (WebFailure::BodyRead, "network_error", "body_read_error"),
        (WebFailure::BodyTimeout, "timeout", "body_timeout"),
    ];
    for (failure, code, tag) in cases {
        let out = web_rejection("act-7", failure);
        assert!(out.sense.is_none());
        match out.outcome {
            EndpointExecutionOutcome::Rejected { reason_code, reference_id } => {
                assert_eq!(reason_code, code);
                assert_eq!(reference_id, format!("body.std.web:{tag}:act-7"));
            }
            _ => panic!("expected a rejection"),
        }
    }
    assert!(web_scheme_allowed("http"));
    assert!(web_scheme_allowed("https"));
    assert!(!web_scheme_allowed("ftp"));
    assert!(!web_scheme_allowed("file"));
    assert!(!web_scheme_allowed(""));
}
