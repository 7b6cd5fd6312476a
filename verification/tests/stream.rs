use beluna::canonical::{BackendRawEvent, ChatEvent, ResponseNormalizer};
use beluna::chat_replies::BackendCompleteResponse;
use beluna::chat_types::BackendIdentity;
use beluna::chat_types::{FinishReason, UsageStats};
use beluna::error::{GatewayError, GatewayErrorKind};
use beluna::reliability::ReliabilityLayer;
use beluna::stream_task::{AttemptEnd, StreamAction, StreamTask, TaskAction};
use beluna::types::{BackendCapabilities, BackendDialect, ReliabilityConfig, RetryPolicy};

fn config(max_retries: u32, threshold: u32) -> ReliabilityConfig {
    ReliabilityConfig {
        request_timeout_ms: 1000,
        max_retries,
        backoff_base_ms: 10,
        backoff_max_ms: 100,
        retry_policy: RetryPolicy::BeforeFirstEventOnly,
        breaker_failure_threshold: threshold,
        breaker_open_ms: 500,
    }
}

fn usage() -> UsageStats {
    UsageStats { input_tokens: Some(3), output_tokens: Some(4), total_tokens: Some(7), provider_usage_raw: None }
}

fn task() -> StreamTask {
    StreamTask::new("req-1".to_string(), "b1".to_string())
}

#[test]
fn stream_task_announces_forwards_and_completes() {
    let mut layer = ReliabilityLayer::new(config(2, 5));
    let n = ResponseNormalizer;
    let mut t = task();
    match t.started("m1") {
        ChatEvent::Started { request_id, backend_id, model_id } => {
            assert_eq!(request_id, "req-1");
            assert_eq!(backend_id, "b1");
            assert_eq!(model_id, "m1");
        }
        _ => panic!("expected started"),
    }
    assert!(t.begin_attempt(&mut layer, 0).is_none());
    match t.on_item(&n, Some(Ok(BackendRawEvent::OutputTextDelta { delta: "hi".to_string() }))) {
        StreamAction::Forward(ChatEvent::TextDelta { request_id, delta }) => {
            assert_eq!(request_id, "req-1");
            assert_eq!(delta, "hi");
        }
        _ => panic!("expected a forwarded delta"),
    }
    assert!(t.emitted_output);
    assert!(!t.emitted_tool);
    assert!(matches!(
        t.on_item(&n, Some(Ok(BackendRawEvent::Usage { usage: usage() }))),
        StreamAction::ForwardUsage(ChatEvent::Usage { .. })
    ));
    let end = match t.on_item(&n, Some(Ok(BackendRawEvent::Completed { finish_reason: FinishReason::Stop }))) {
        StreamAction::EndAttempt(end) => end,
        _ => panic!("expected the end of the attempt"),
    };
    match t.end_attempt(&mut layer, end, &BackendCapabilities::default(), false, 10) {
        TaskAction::Finish { event: ChatEvent::Completed { request_id, finish_reason }, release_lease } => {
            assert_eq!(request_id, "req-1");
            assert_eq!(finish_reason, FinishReason::Stop);
            assert!(release_lease);
        }
        _ => panic!("expected completion"),
    }
    assert!(t.finished);
    assert!(!t.lease_held);
    assert!(!t.cancel());
}

#[test]
fn stream_task_refuses_a_second_usage_report() {
    let n = ResponseNormalizer;
    let mut t = task();
    assert!(matches!(
        t.on_item(&n, Some(Ok(BackendRawEvent::Usage { usage: usage() }))),
        StreamAction::ForwardUsage(_)
    ));
    match t.on_item(&n, Some(Ok(BackendRawEvent::Usage { usage: usage() }))) {
        StreamAction::EndAttempt(AttemptEnd::Failure(e)) => {
            assert_eq!(e.kind, GatewayErrorKind::ProtocolViolation);
            assert_eq!(e.message, "duplicate usage event received");
            assert!(!e.retryable);
            assert_eq!(e.backend_id.as_deref(), Some("b1"));
        }
        _ => panic!("expected a protocol violation"),
    }
}

#[test]
fn stream_task_missing_terminal_event_then_failure() {
    let mut layer = ReliabilityLayer::new(config(2, 5));
    let n = ResponseNormalizer;
    let mut t = task();
    assert!(t.begin_attempt(&mut layer, 0).is_none());
    let end = match t.on_item(&n, None) {
        StreamAction::EndAttempt(end) => end,
        _ => panic!("expected the end of the attempt"),
    };
    match &end {
        AttemptEnd::Failure(e) => {
            assert_eq!(e.message, "adapter stream ended without terminal event");
            assert_eq!(e.kind, GatewayErrorKind::ProtocolViolation);
        }
        _ => panic!("expected a failure"),
    }
    match t.end_attempt(&mut layer, end, &BackendCapabilities::default(), false, 5) {
        TaskAction::Finish { event: ChatEvent::Failed { request_id, error }, release_lease } => {
            assert_eq!(request_id, "req-1");
            assert_eq!(error.message, "adapter stream ended without terminal event");
            assert!(release_lease);
        }
        _ => panic!("expected failure"),
    }
}

#[test]
fn stream_task_retries_transient_failures_then_gives_up() {
    let mut layer = ReliabilityLayer::new(config(1, 5));
    let n = ResponseNormalizer;
    let caps = BackendCapabilities::default();
    let mut t = task();
    assert!(t.begin_attempt(&mut layer, 0).is_none());
    let err = GatewayError::new(GatewayErrorKind::BackendTransient, "flaky");
    match t.on_item(&n, Some(Err(err))) {
        StreamAction::EndAttempt(end) => match t.end_attempt(&mut layer, end, &caps, false, 1) {
            TaskAction::Retry { attempt } => assert_eq!(attempt, 1),
            _ => panic!("expected a retry"),
        },
        _ => panic!("expected the end of the attempt"),
    }
    assert!(t.begin_attempt(&mut layer, 2).is_none());
    let failed = BackendRawEvent::Failed { error: GatewayError::new(GatewayErrorKind::Timeout, "late") };
    match t.on_item(&n, Some(Ok(failed))) {
        StreamAction::EndAttempt(end) => match t.end_attempt(&mut layer, end, &caps, false, 3) {
            TaskAction::Finish { event: ChatEvent::Failed { error, .. }, release_lease } => {
                assert_eq!(error.message, "late");
                assert!(release_lease);
            }
            _ => panic!("expected the task to fail"),
        },
        _ => panic!("expected the end of the attempt"),
    }
}

#[test]
fn stream_task_output_blocks_retry_and_breaker_refusal_ends_task() {
    let mut layer = ReliabilityLayer::new(config(3, 1));
    let n = ResponseNormalizer;
    let caps = BackendCapabilities::default();
    let mut t = task();
    assert!(t.begin_attempt(&mut layer, 0).is_none());
    let _ = t.on_item(&n, Some(Ok(BackendRawEvent::OutputTextDelta { delta: "x".to_string() })));
    let err = GatewayError::new(GatewayErrorKind::BackendTransient, "cut");
    match t.end_attempt(&mut layer, AttemptEnd::Failure(err), &caps, false, 10) {
        TaskAction::Finish { event: ChatEvent::Failed { error, .. }, .. } => assert_eq!(error.message, "cut"),
        _ => panic!("output already sent: no retry"),
    }
    let mut t2 = task();
    match t2.begin_attempt(&mut layer, 20) {
        Some(TaskAction::Finish { event: ChatEvent::Failed { error, .. }, release_lease }) => {
            assert_eq!(error.kind, GatewayErrorKind::CircuitOpen);
            assert!(release_lease);
        }
        _ => panic!("expected the open breaker to refuse"),
    }
    assert!(!t2.cancel());
    let mut t3 = task();
    assert!(t3.cancel());
    assert!(!t3.cancel());
}

#[test]
fn openai_stream_adds_stop_only_without_finish_reason() {
    let mut saw = false;
    let out = beluna::openai_stream::forward_stream_events(
        &mut saw,
        vec![BackendRawEvent::OutputTextDelta { delta: "a".to_string() }],
        false,
    );
    assert_eq!(out.len(), 1);
    assert!(!saw);
    let out = beluna::openai_stream::forward_stream_events(&mut saw, vec![], true);
    assert_eq!(out.len(), 1);
    assert!(matches!(out[0], BackendRawEvent::Completed { finish_reason: FinishReason::Stop }));

    let mut saw = false;
    let out = beluna::openai_stream::forward_stream_events(
        &mut saw,
        vec![BackendRawEvent::Completed { finish_reason: FinishReason::Length }],
        false,
    );
    assert_eq!(out.len(), 1);
    assert!(saw);
    let out = beluna::openai_stream::forward_stream_events(&mut saw, vec![], true);
    assert!(out.is_empty());
    assert!(beluna::openai_stream::close_stream(saw).is_none());
    assert!(matches!(
        beluna::openai_stream::close_stream(false),
        Some(BackendRawEvent::Completed { finish_reason: FinishReason::Stop })
    ));
}

#[test]
fn dispatch_response_carries_backend_metadata() {
    let complete = BackendCompleteResponse {
        backend_identity: BackendIdentity {
            backend_id: "ignored".to_string(),
            dialect: BackendDialect::Ollama,
            model: "ignored".to_string(),
        },
        output_text: "hello".to_string(),
        tool_calls: vec![],
        usage: Some(usage()),
        finish_reason: FinishReason::Length,
    };
    let r = beluna::dispatch::turn_response_from(complete, "b1", "m1", "b1-m1-3");
    assert_eq!(r.output_text, "hello");
    assert_eq!(r.finish_reason, FinishReason::Length);
    assert!(!r.pending_tool_call_continuation);
    assert_eq!(r.usage, Some(usage()));
    assert_eq!(r.backend_metadata.len(), 3);
    assert_eq!(r.backend_metadata.get("backend_id").map(|s| s.as_str()), Some("b1"));
    assert_eq!(r.backend_metadata.get("model").map(|s| s.as_str()), Some("m1"));
    assert_eq!(r.backend_metadata.get("request_id").map(|s| s.as_str()), Some("b1-m1-3"));
}
