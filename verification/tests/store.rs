use beluna::chat_types::{
    ChatMessage, ChatRole, ContentPart, FinishReason, MessageToolCall, OutputMode, ToolCallResult,
    ToolCallStatus, TurnLimits, UsageStats,
};
use beluna::completion::{ThreadSettings, TurnInput, TurnResponse};
use beluna::error::GatewayErrorKind;
use beluna::metadata::Metadata;
use beluna::store::{
    drop_leading_orphan_tool_messages, resolve_message_boundary, MessageBoundarySelector,
    MessageRange, PreparedTurn, SystemPromptUpdate, ThreadData, ThreadMessageMutationRequest,
    ThreadSystemPromptMode,
};
use beluna::store_turn::{assistant_message_from_response, store_turn_payload};
use beluna::thread_store::ThreadStore;
use beluna::tool::{ChatToolDefinition, ToolOverride};
use beluna::tool_chain::validate_tool_message_chain;
use beluna::json::JsonText;

fn msg(role: ChatRole, text: &str) -> ChatMessage {
    ChatMessage {
        role,
        parts: vec![ContentPart::Text { text: text.to_string() }],
        tool_call_id: None,
        tool_name: None,
        tool_calls: vec![],
    }
}

fn assistant_calling(ids: &[&str]) -> ChatMessage {
    ChatMessage {
        role: ChatRole::Assistant,
        parts: vec![],
        tool_call_id: None,
        tool_name: None,
        tool_calls: ids
            .iter()
            .map(|id| MessageToolCall {
                id: id.to_string(),
                name: "lookup".to_string(),
                arguments_json: "{}".to_string(),
            })
            .collect(),
    }
}

fn tool_answer(id: &str) -> ChatMessage {
    ChatMessage {
        role: ChatRole::Tool,
        parts: vec![ContentPart::Text { text: format!("result {id}") }],
        tool_call_id: Some(id.to_string()),
        tool_name: Some("lookup".to_string()),
        tool_calls: vec![],
    }
}

fn text_of(m: &ChatMessage) -> String {
    match m.parts.first() {
        Some(ContentPart::Text { text }) => text.clone(),
        _ => String::new(),
    }
}

fn texts(ms: &Vec<ChatMessage>) -> Vec<String> {
    ms.iter().map(text_of).collect()
}

fn request(
    range: Option<(MessageBoundarySelector, MessageBoundarySelector)>,
    trim_if_resolvable: bool,
    update: SystemPromptUpdate,
) -> ThreadMessageMutationRequest {
    ThreadMessageMutationRequest {
        trim_message_range: range.map(|(start, end)| MessageRange { start, end }),
        trim_if_resolvable,
        system_prompt_update: update,
    }
}

#[test]
fn boundaries_find_first_user_and_end_of_latest_tool_batch() {
    let ms = vec![
        msg(ChatRole::System, "s"),
        msg(ChatRole::User, "u1"),
        assistant_calling(&["a", "b"]),
        tool_answer("a"),
        tool_answer("b"),
        msg(ChatRole::User, "u2"),
    ];
    assert_eq!(resolve_message_boundary(&ms, MessageBoundarySelector::FirstUserMessage), Some(1));
    assert_eq!(
        resolve_message_boundary(&ms, MessageBoundarySelector::LatestAssistantToolBatchEnd),
        Some(4)
    );
    let plain = vec![msg(ChatRole::System, "s")];
    assert_eq!(resolve_message_boundary(&plain, MessageBoundarySelector::FirstUserMessage), None);
    assert_eq!(
        resolve_message_boundary(&plain, MessageBoundarySelector::LatestAssistantToolBatchEnd),
        None
    );
}

#[test]
fn orphan_tool_messages_at_the_front_are_dropped() {
    let mut ms = vec![tool_answer("x"), tool_answer("y"), msg(ChatRole::User, "u"), tool_answer("z")];
    assert_eq!(drop_leading_orphan_tool_messages(&mut ms), 2);
    assert_eq!(ms.len(), 2);
    assert_eq!(ms[0].role, ChatRole::User);
}

#[test]
fn trim_keeps_latest_messages_without_leading_tool_message() {
    let mut t = ThreadData::new();
    t.messages = vec![
        msg(ChatRole::User, "1"),
        assistant_calling(&["c"]),
        tool_answer("c"),
        msg(ChatRole::User, "4"),
    ];
    t.trim_context(2);
    assert_eq!(texts(&t.messages), vec!["4"]);
    let mut u = ThreadData::new();
    u.messages = vec![msg(ChatRole::User, "1"), msg(ChatRole::User, "2")];
    u.trim_context(0);
    assert_eq!(u.messages.len(), 2);
}

#[test]
fn prepare_joins_history_pending_and_input_with_prompt_in_effect() {
    let mut t = ThreadData::new();
    t.messages = vec![msg(ChatRole::User, "h")];
    t.pending_tool_messages = vec![tool_answer("p")];
    let p = t.prepare(&vec![msg(ChatRole::User, "in")], Some("chat prompt"));
    assert_eq!(p.turn_id, 0);
    assert!(p.consumed_pending_tool_messages);
    assert_eq!(texts(&p.messages), vec!["h", "result p", "in"]);
    assert_eq!(p.system_prompt.as_deref(), Some("chat prompt"));
    t.system_prompt_mode = ThreadSystemPromptMode::Cleared;
    assert_eq!(t.prepare(&vec![], Some("chat prompt")).system_prompt, None);
}

#[test]
fn commit_success_appends_and_counts() {
    let mut t = ThreadData::new();
    t.pending_tool_messages = vec![tool_answer("p")];
    let usage = UsageStats { input_tokens: Some(5), output_tokens: None, total_tokens: None, provider_usage_raw: None };
    let m = t.commit_success(0, true, vec![msg(ChatRole::Assistant, "a")], None, Some(usage), 2, 30);
    assert_eq!(texts(&t.messages), vec!["result p", "a"]);
    assert!(t.pending_tool_messages.is_empty());
    assert_eq!(t.next_turn_id, 1);
    assert_eq!(m.turns_total, 1);
    assert_eq!(m.tool_calls_total, 2);
    assert_eq!(m.tokens_in_total, 5);
    assert_eq!(m.tokens_out_total, 0);
    assert_eq!(m.last_turn_latency_ms, Some(30));
    let f = t.commit_failure(7);
    assert_eq!(f.failures_total, 1);
    assert_eq!(f.last_turn_latency_ms, Some(7));
    assert_eq!(t.next_turn_id, 1);
}

#[test]
fn mutation_cuts_range_and_reports_counts() {
    let mut t = ThreadData::new();
    t.messages = vec![
        msg(ChatRole::System, "s"),
        msg(ChatRole::User, "u1"),
        assistant_calling(&["a"]),
        tool_answer("a"),
        msg(ChatRole::User, "u2"),
    ];
    let out = t
        .mutate_messages(
            "t1",
            request(
                Some((
                    MessageBoundarySelector::FirstUserMessage,
                    MessageBoundarySelector::LatestAssistantToolBatchEnd,
                )),
                false,
                SystemPromptUpdate::Replace("  new prompt ".to_string()),
            ),
        )
        .unwrap();
    assert_eq!(out.removed_messages, 3);
    assert_eq!(out.remaining_messages, 2);
    assert!(out.effective_system_prompt_changed);
    assert_eq!(texts(&t.messages), vec!["s", "u2"]);
    assert_eq!(t.system_prompt_mode, ThreadSystemPromptMode::Override("new prompt".to_string()));
}

#[test]
fn mutation_refuses_unresolvable_range_unless_told_to_skip() {
    let mut t = ThreadData::new();
    t.messages = vec![msg(ChatRole::System, "s")];
    let err = t
        .mutate_messages(
            "t1",
            request(
                Some((
                    MessageBoundarySelector::FirstUserMessage,
                    MessageBoundarySelector::FirstUserMessage,
                )),
                false,
                SystemPromptUpdate::Keep,
            ),
        )
        .unwrap_err();
    assert_eq!(err.kind, GatewayErrorKind::InvalidRequest);
    assert_eq!(
        err.message,
        "cannot resolve message boundaries 'FirstUserMessage' -> 'FirstUserMessage' for thread 't1'"
    );
    let out = t
        .mutate_messages(
            "t1",
            request(
                Some((
                    MessageBoundarySelector::FirstUserMessage,
                    MessageBoundarySelector::FirstUserMessage,
                )),
                true,
                SystemPromptUpdate::Clear,
            ),
        )
        .unwrap();
    assert_eq!(out.removed_messages, 0);
    assert_eq!(out.remaining_messages, 1);
    assert!(out.effective_system_prompt_changed);
}

#[test]
fn mutation_refuses_backwards_range_and_blank_prompt() {
    let mut t = ThreadData::new();
    t.messages = vec![
        msg(ChatRole::User, "u1"),
        assistant_calling(&["a"]),
        tool_answer("a"),
        msg(ChatRole::User, "u2"),
    ];
    let err = t
        .mutate_messages(
            "t9",
            request(
                Some((
                    MessageBoundarySelector::LatestAssistantToolBatchEnd,
                    MessageBoundarySelector::FirstUserMessage,
                )),
                false,
                SystemPromptUpdate::Keep,
            ),
        )
        .unwrap_err();
    assert_eq!(err.message, "invalid message range: start=2 is after end=0 for thread 't9'");
    assert_eq!(t.messages.len(), 4);
    let err = t
        .mutate_messages("t9", request(None, false, SystemPromptUpdate::Replace("   ".to_string())))
        .unwrap_err();
    assert_eq!(err.message, "system_prompt_update.replace must not be empty");
    assert!(!err.retryable);
}

#[test]
fn store_opens_prepares_commits_and_reports_threads() {
    let mut store = ThreadStore::new(60, 10);
    store.register_chat("c1", 1_000);
    let id = store.open_thread("c1", None, vec![msg(ChatRole::User, "seed")], 1_000).unwrap();
    assert_eq!(id, "thread-1");
    assert_eq!(store.thread_seq, 2);
    let named = store.open_thread("c1", Some("mine".to_string()), vec![], 1_000).unwrap();
    assert_eq!(named, "mine");
    let p = store.prepare_turn("c1", "thread-1", &vec![msg(ChatRole::User, "hi")], None, 2_000).unwrap();
    assert_eq!(texts(&p.messages), vec!["seed", "hi"]);
    assert_eq!(store.chats[0].expires_at_ms, 62_000);
    let m = store
        .commit_turn_success("c1", "thread-1", p.consumed_pending_tool_messages, vec![msg(ChatRole::User, "hi"), msg(ChatRole::Assistant, "yo")], None, None, 0, 12, 2_000)
        .unwrap();
    assert_eq!(m.turns_total, 1);
    let s = store.thread_state("c1", "thread-1").unwrap();
    assert_eq!(s.thread_id, "thread-1");
    assert_eq!(s.message_count, 3);
    assert_eq!(s.next_turn_id, 1);
    assert_eq!(s.last_turn_latency_ms, Some(12));
    let f = store.commit_turn_failure("c1", "thread-1", 5).unwrap();
    assert_eq!(f.failures_total, 1);
}

#[test]
fn store_reports_unknown_chats_and_threads() {
    let mut store = ThreadStore::new(0, 0);
    let err = store.open_thread("nope", None, vec![], 0).unwrap_err();
    assert_eq!(err.message, "chat 'nope' not found");
    assert_eq!(store.thread_seq, 1);
    store.register_chat("c", 0);
    let err = store.thread_state("c", "t").unwrap_err();
    assert_eq!(err.message, "thread 't' not found");
    assert_eq!(err.kind, GatewayErrorKind::InvalidRequest);
    let err = store.prepare_turn("c", "t", &vec![], None, 10).unwrap_err();
    assert_eq!(err.message, "thread 't' not found");
}

#[test]
fn expired_chats_are_swept_and_removed_chats_are_gone() {
    let mut store = ThreadStore::new(1, 0);
    store.register_chat("old", 0);
    store.register_chat("new", 5_000);
    assert_eq!(store.chats.len(), 1);
    assert_eq!(store.chats[0].chat_id, "new");
    assert_eq!(store.chats[0].expires_at_ms, 6_000);
    store.register_chat("new", 5_500);
    assert_eq!(store.chats.len(), 1);
    assert_eq!(store.chats[0].expires_at_ms, 6_500);
    store.remove_chat("new");
    assert!(store.chats.is_empty());
}

#[test]
fn store_mutation_goes_through_to_the_thread() {
    let mut store = ThreadStore::new(60, 0);
    store.register_chat("c", 0);
    store
        .open_thread("c", Some("t".to_string()), vec![msg(ChatRole::User, "a"), msg(ChatRole::User, "b")], 0)
        .unwrap();
    let out = store
        .mutate_thread_messages_atomically(
            "c",
            "t",
            request(
                Some((
                    MessageBoundarySelector::FirstUserMessage,
                    MessageBoundarySelector::FirstUserMessage,
                )),
                false,
                SystemPromptUpdate::Keep,
            ),
            10,
        )
        .unwrap();
    assert_eq!(out.removed_messages, 1);
    assert_eq!(out.remaining_messages, 1);
    assert!(!out.effective_system_prompt_changed);
    assert_eq!(store.thread_state("c", "t").unwrap().message_count, 1);
}

#[test]
fn tool_chain_accepts_answers_and_refuses_orphans() {
    let ok = vec![msg(ChatRole::User, "u"), assistant_calling(&["a", "b"]), tool_answer("b"), tool_answer("a")];
    assert!(validate_tool_message_chain(&ok).is_ok());
    let twice = vec![assistant_calling(&["a"]), tool_answer("a"), tool_answer("a")];
    let err = validate_tool_message_chain(&twice).unwrap_err();
    assert_eq!(
        err.message,
        "messages with role \"tool\" must be a response to a preceeding message with \"tool_calls\" (index=2, tool_call_id=a)"
    );
    let mut missing = tool_answer("a");
    missing.tool_call_id = None;
    let err = validate_tool_message_chain(&vec![assistant_calling(&["a"]), missing]).unwrap_err();
    assert_eq!(
        err.message,
        "messages with role \"tool\" must be a response to a preceeding message with \"tool_calls\" (index=1, missing tool_call_id)"
    );
    let broken = vec![assistant_calling(&["a"]), msg(ChatRole::User, "u"), tool_answer("a")];
    assert!(validate_tool_message_chain(&broken).is_err());
}

#[test]
fn assistant_message_records_text_and_calls() {
    let response = TurnResponse {
        output_text: "done".to_string(),
        tool_calls: vec![ToolCallResult {
            id: "c1".to_string(),
            name: "f".to_string(),
            arguments_json: "{\"x\":1}".to_string(),
            status: ToolCallStatus::Ready,
        }],
        pending_tool_call_continuation: false,
        usage: None,
        finish_reason: FinishReason::Stop,
        backend_metadata: Metadata::new(),
    };
    let m = assistant_message_from_response(&response);
    assert_eq!(m.role, ChatRole::Assistant);
    assert_eq!(text_of(&m), "done");
    assert_eq!(m.tool_calls.len(), 1);
    assert_eq!(m.tool_calls[0].arguments_json, "{\"x\":1}");
}

fn settings() -> ThreadSettings {
    ThreadSettings {
        tools: vec![ChatToolDefinition {
            name: "lookup".to_string(),
            description: None,
            input_schema: JsonText { text: "{\"type\":\"object\"}".to_string() },
        }],
        default_output_mode: OutputMode::Text,
        default_limits: TurnLimits { max_output_tokens: Some(64), max_request_time_ms: None },
        default_turn_timeout_ms: 9_000,
        enable_thinking: false,
    }
}

#[test]
fn store_turn_payload_prepends_prompt_and_fills_metadata() {
    let prepared = PreparedTurn {
        turn_id: 4,
        messages: vec![msg(ChatRole::User, "hi")],
        system_prompt: Some("be brief".to_string()),
        consumed_pending_tool_messages: false,
    };
    let mut metadata = Metadata::new();
    metadata.insert("chat_id".to_string(), "given".to_string());
    let input = TurnInput {
        messages: vec![msg(ChatRole::User, "hi")],
        tool_overrides: vec![],
        output_mode: None,
        limits: None,
        enable_thinking: None,
        metadata,
    };
    let thread_overrides = vec![ToolOverride::Remove("lookup".to_string())];
    let p = store_turn_payload(&prepared, &settings(), &thread_overrides, &input, "c", "t").unwrap();
    assert_eq!(p.messages.len(), 2);
    assert_eq!(p.messages[0].role, ChatRole::System);
    assert_eq!(text_of(&p.messages[0]), "be brief");
    assert!(p.tools.is_empty());
    assert_eq!(p.limits.max_request_time_ms, Some(9_000));
    assert_eq!(p.limits.max_output_tokens, Some(64));
    assert_eq!(p.metadata.get("chat_id").map(|s| s.as_str()), Some("given"));
    assert_eq!(p.metadata.get("thread_id").map(|s| s.as_str()), Some("t"));
    assert_eq!(p.metadata.get("turn_id").map(|s| s.as_str()), Some("4"));
}

#[test]
fn store_turn_payload_refuses_dangling_tool_message() {
    let prepared = PreparedTurn {
        turn_id: 0,
        messages: vec![tool_answer("x")],
        system_prompt: None,
        consumed_pending_tool_messages: false,
    };
    let input = TurnInput {
        messages: vec![],
        tool_overrides: vec![],
        output_mode: None,
        limits: None,
        enable_thinking: None,
        metadata: Metadata::new(),
    };
    let err = store_turn_payload(&prepared, &settings(), &vec![], &input, "c", "t").unwrap_err();
    assert_eq!(
        err.message,
        "messages with role \"tool\" must be a response to a preceeding message with \"tool_calls\" (index=0, tool_call_id=x)"
    );
}
