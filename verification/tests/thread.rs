use beluna::chat_types::{ChatMessage, ChatRole, ContentPart, FinishReason, ToolCallResult, ToolCallStatus};
use beluna::completion::commit_after_dispatch;
use beluna::json::JsonText;
use beluna::message::{Message, ToolCallMessage};
use beluna::metadata::{parse_u64, Metadata};
use beluna::thread::{
    apply_system_prompt_action, dropped_turn_ids_from_source, ensure_unique_turn_ids,
    metadata_context_reason, metadata_parent_span_id, metadata_tick, next_turn_id_from_turns,
    reindex_turn_ids, select_turns_by_retention, ThreadState,
};
use beluna::thread_types::{
    ContextControlReason, SystemPromptAction, ThreadContextRequest, TurnQuery,
    TurnRetentionPolicy,
};
use beluna::turn::{tool_execution_result, Turn};

fn user(text: &str) -> Message {
    Message::from_chat_message(
        ChatMessage {
            role: ChatRole::User,
            parts: vec![ContentPart::Text { text: text.to_string() }],
            tool_call_id: None,
            tool_name: None,
            tool_calls: vec![],
        },
        format!("msg-{text}"),
        1,
    )
    .remove(0)
}

fn turn_with(id: u64, texts: &[&str]) -> Turn {
    let mut t = Turn::new(id);
    for text in texts {
        t.append_one(user(text), None).unwrap();
    }
    t
}

fn ids(turns: &Vec<Turn>) -> Vec<u64> {
    turns.iter().map(|t| t.turn_id()).collect()
}

fn request(retention: TurnRetentionPolicy, system_prompt: SystemPromptAction) -> ThreadContextRequest {
    ThreadContextRequest {
        retention,
        system_prompt,
        drop_unfinished_continuation: true,
        reason: ContextControlReason::Manual,
    }
}

fn state_with(n: u64) -> ThreadState {
    let turns = (1..=n).map(|i| turn_with(i * 10, &["hi"])).collect();
    ThreadState::open(turns, Some("be brief".to_string())).unwrap()
}

#[test]
fn open_renumbers_seed_turns() {
    let s = state_with(3);
    assert_eq!(ids(s.turns()), vec![1, 2, 3]);
    assert_eq!(s.next_turn_id(), 4);
    assert_eq!(s.turns()[0].metadata().get("source_turn_id").map(|v| v.as_str()), Some("10"));
}

#[test]
fn append_turn_requires_next_id() {
    let mut s = state_with(2);
    let err = s.append_turn(turn_with(7, &["x"])).unwrap_err();
    assert_eq!(err.message, "turn_id '7' is out of sequence; expected '3'");
    s.append_turn(turn_with(3, &["x"])).unwrap();
    assert_eq!(s.next_turn_id(), 4);
    assert_eq!(s.turns().len(), 3);
}

#[test]
fn append_turn_rejects_broken_linkage() {
    let mut s = state_with(1);
    let mut t = Turn::new(2);
    let call = ToolCallMessage {
        id: "c".to_string(),
        created_at_ms: 1,
        call_id: "call-1".to_string(),
        name: "tool".to_string(),
        arguments_json: "{}".to_string(),
    };
    let (result, _) = tool_execution_result(
        &call,
        Ok((JsonText { text: "{}".to_string() }, false)),
        "r".to_string(),
        2,
    );
    t.append_one(Message::ToolCall(call), Some((result, false))).unwrap();
    assert!(t.validate_tool_linkage().is_ok());
    s.append_turn(t).unwrap();
    let mut bad = Turn::new(3);
    let dangling = Message::tool_call_result(
        "call-9".to_string(),
        "tool".to_string(),
        JsonText { text: "{}".to_string() },
        "r9".to_string(),
        3,
    );
    assert!(bad.append_one(dangling, None).is_err());
    let err = s.append_turn(bad).unwrap_err();
    assert_eq!(err.message, "turn 3 has dangling ToolCallResultMessage 'call-9'");
}

#[test]
fn keep_last_turns_and_dropped_ids() {
    let mut s = state_with(4);
    let res = s
        .rewrite_context(&request(TurnRetentionPolicy::KeepLastTurns { count: 2 }, SystemPromptAction::Keep))
        .unwrap();
    assert_eq!(res.kept_turn_ids, vec![3, 4]);
    assert_eq!(res.dropped_turn_ids, vec![1, 2]);
    assert!(res.continuation_dropped);
    assert_eq!(s.next_turn_id(), 5);
    assert_eq!(s.system_prompt().as_deref(), Some("be brief"));
}

#[test]
fn keep_selected_in_source_order() {
    let mut s = state_with(4);
    let res = s
        .rewrite_context(&request(
            TurnRetentionPolicy::KeepSelectedTurnIds { turn_ids: vec![3, 1] },
            SystemPromptAction::Replace { prompt: "  new prompt ".to_string() },
        ))
        .unwrap();
    assert_eq!(res.kept_turn_ids, vec![1, 3]);
    assert_eq!(res.dropped_turn_ids, vec![2, 4]);
    assert_eq!(s.next_turn_id(), 4);
    assert_eq!(s.system_prompt().as_deref(), Some("new prompt"));
}

#[test]
fn retention_errors() {
    let s = state_with(3);
    let err = select_turns_by_retention(
        s.turns(),
        &TurnRetentionPolicy::KeepSelectedTurnIds { turn_ids: vec![1, 2, 1] },
    )
    .err()
    .unwrap();
    assert_eq!(err.message, "duplicate turn_id '1' in retention policy");
    let err = select_turns_by_retention(
        s.turns(),
        &TurnRetentionPolicy::KeepSelectedTurnIds { turn_ids: vec![2, 9] },
    )
    .err()
    .unwrap();
    assert_eq!(err.message, "turn_id '9' not found in source thread");
    assert!(ensure_unique_turn_ids(&vec![4, 5, 6]).is_ok());
}

#[test]
fn drop_all_and_blank_prompt() {
    let mut s = state_with(2);
    let err = s
        .rewrite_context(&request(
            TurnRetentionPolicy::DropAll,
            SystemPromptAction::Replace { prompt: "   ".to_string() },
        ))
        .unwrap_err();
    assert_eq!(err.message, "system prompt cannot be empty for replace action");
    assert_eq!(s.turns().len(), 0);
    assert_eq!(s.next_turn_id(), 1);
    assert_eq!(s.system_prompt().as_deref(), Some("be brief"));
}

#[test]
fn derive_copies_selected_turns() {
    let s = state_with(3);
    let (derived, res) = s
        .derive_context(&request(TurnRetentionPolicy::KeepAll, SystemPromptAction::Clear))
        .unwrap();
    assert_eq!(ids(derived.turns()), vec![1, 2, 3]);
    assert_eq!(res.dropped_turn_ids, Vec::<u64>::new());
    assert_eq!(derived.system_prompt(), &None);
    assert_eq!(derived.next_turn_id(), 4);
    assert_eq!(s.turns().len(), 3);
}

#[test]
fn find_and_query_turns() {
    let s = state_with(4);
    let q = TurnQuery { min_turn_id: Some(2), max_turn_id: Some(4), has_tool_calls: Some(false), limit: Some(2) };
    let refs = s.find_turns(&q);
    assert_eq!(refs.iter().map(|r| (r.turn_id, r.index)).collect::<Vec<_>>(), vec![(2, 1), (3, 2)]);
    let summaries = s.query_turns(&TurnQuery::default());
    assert_eq!(summaries.len(), 4);
    assert_eq!(summaries[0].message_count, 1);
    assert_eq!(summaries[0].tool_call_count, 0);
    assert!(!summaries[0].completed);
}

#[test]
fn dispatch_messages_have_prompt_history_and_input() {
    let s = state_with(2);
    let input = vec![ChatMessage {
        role: ChatRole::User,
        parts: vec![ContentPart::Text { text: "now".to_string() }],
        tool_call_id: None,
        tool_name: None,
        tool_calls: vec![],
    }];
    let out = s.build_dispatch_messages(&input);
    assert_eq!(out.len(), 4);
    assert_eq!(out[0].role, ChatRole::System);
    assert_eq!(out[1].role, ChatRole::User);
    assert_eq!(out[3].parts, vec![ContentPart::Text { text: "now".to_string() }]);
}

#[test]
fn small_helpers() {
    assert_eq!(dropped_turn_ids_from_source(&vec![1, 2, 3, 2], &vec![2]), vec![1, 3]);
    assert_eq!(next_turn_id_from_turns(&vec![]), 1);
    assert_eq!(next_turn_id_from_turns(&vec![turn_with(5, &[]), turn_with(2, &[])]), 6);
    assert_eq!(next_turn_id_from_turns(&vec![turn_with(u64::MAX, &[])]), u64::MAX);
    assert_eq!(
        apply_system_prompt_action(Some("a".to_string()), &SystemPromptAction::Keep).unwrap(),
        Some("a".to_string())
    );
    let mut turns = vec![turn_with(1, &[]), turn_with(9, &[])];
    reindex_turn_ids(&mut turns);
    assert_eq!(ids(&turns), vec![1, 2]);
    assert_eq!(turns[0].metadata().get("source_turn_id"), None);
    assert_eq!(turns[1].metadata().get("source_turn_id").map(|v| v.as_str()), Some("9"));
}

#[test]
fn metadata_readers() {
    let mut m = Metadata::new();
    assert_eq!(metadata_tick(&m), 0);
    m.insert("tick".to_string(), "42".to_string());
    assert_eq!(metadata_tick(&m), 42);
    m.insert("tick".to_string(), "-1".to_string());
    assert_eq!(metadata_tick(&m), 0);
    m.insert("request_id".to_string(), "req".to_string());
    assert_eq!(metadata_parent_span_id(&m).as_deref(), Some("req"));
    m.insert("parent_span_id".to_string(), "span".to_string());
    assert_eq!(metadata_parent_span_id(&m).as_deref(), Some("span"));
    m.insert("context_reason".to_string(), "  ".to_string());
    assert_eq!(metadata_context_reason(&m), None);
    m.insert("context_reason".to_string(), " reset ".to_string());
    assert_eq!(metadata_context_reason(&m).as_deref(), Some("reset"));
    assert_eq!(parse_u64("+7"), Some(7));
    assert_eq!(parse_u64("18446744073709551616"), None);
    assert_eq!(ContextControlReason::CortexReset.as_label(), "cortex_reset");
}

#[test]
fn tool_call_request_and_error_payload() {
    let call = ToolCallMessage {
        id: "c".to_string(),
        created_at_ms: 1,
        call_id: "call-2".to_string(),
        name: "search".to_string(),
        arguments_json: "{\"q\":1}".to_string(),
    };
    let req: ToolCallResult = beluna::turn::tool_call_request(&call);
    assert_eq!(req.status, ToolCallStatus::Ready);
    let (msg, reset) = tool_execution_result(
        &call,
        Err(beluna::error::invalid_request("no \"tool\"")),
        "r".to_string(),
        5,
    );
    assert!(!reset);
    match msg {
        Message::ToolCallResult(r) => {
            assert_eq!(r.payload.text, "{\"error\":\"no \\\"tool\\\"\",\"ok\":false}");
            assert_eq!(r.call_id, "call-2");
        }
        _ => panic!("expected a tool result"),
    }
    let (msg, _) = tool_execution_result(
        &call,
        Err(beluna::error::invalid_request("a\\b\n\t\u{1}\u{1f}é")),
        "r2".to_string(),
        6,
    );
    match msg {
        Message::ToolCallResult(r) => {
            assert_eq!(r.payload.text, "{\"error\":\"a\\\\b\\n\\t\\u0001\\u001fé\",\"ok\":false}");
        }
        _ => panic!("expected a tool result"),
    }
    let mut t = Turn::new(1);
    t.finalize(None, FinishReason::Stop);
    assert!(t.completed());
}

fn chat(role: ChatRole, text: &str, tool_call_id: Option<&str>) -> ChatMessage {
    ChatMessage {
        role,
        parts: vec![ContentPart::Text { text: text.to_string() }],
        tool_call_id: tool_call_id.map(|s| s.to_string()),
        tool_name: None,
        tool_calls: vec![],
    }
}

fn answer(text: &str) -> beluna::completion::TurnResponse {
    beluna::completion::TurnResponse {
        output_text: text.to_string(),
        tool_calls: vec![ToolCallResult {
            id: "call-1".to_string(),
            name: "search".to_string(),
            arguments_json: "{}".to_string(),
            status: ToolCallStatus::Ready,
        }],
        pending_tool_call_continuation: true,
        usage: None,
        finish_reason: FinishReason::Stop,
        backend_metadata: Metadata::new(),
    }
}

#[test]
fn turn_commits_only_after_a_successful_dispatch() {
    let mut s = state_with(2);
    let before = s.next_turn_id();
    let err = commit_after_dispatch(
        &mut s,
        Err(beluna::error::invalid_request("backend down")),
        Metadata::new(),
        vec![chat(ChatRole::User, "q", None)],
        vec!["m1".to_string()],
        9,
    )
    .unwrap_err();
    assert_eq!(err.message, "backend down");
    assert_eq!(ids(s.turns()), vec![1, 2]);
    assert_eq!(s.next_turn_id(), before);

    let err = commit_after_dispatch(
        &mut s,
        Ok(answer("a")),
        Metadata::new(),
        vec![chat(ChatRole::Tool, "r", Some("call-9"))],
        vec!["m2".to_string()],
        9,
    )
    .unwrap_err();
    assert_eq!(err.kind, beluna::error::GatewayErrorKind::InvalidRequest);
    assert_eq!(ids(s.turns()), vec![1, 2]);

    let out = commit_after_dispatch(
        &mut s,
        Ok(answer("done")),
        Metadata::new(),
        vec![chat(ChatRole::User, "q", None)],
        vec!["m3".to_string()],
        9,
    )
    .unwrap();
    assert_eq!(out.output_text, "done");
    assert!(!out.pending_tool_call_continuation);
    assert_eq!(out.tool_calls.len(), 1);
    assert_eq!(ids(s.turns()), vec![1, 2, 3]);
    assert_eq!(s.next_turn_id(), 4);
    let t = &s.turns()[2];
    assert!(t.completed());
    assert_eq!(t.message_count(), 2);
    assert_eq!(*t.finish_reason(), Some(FinishReason::Stop));
}
