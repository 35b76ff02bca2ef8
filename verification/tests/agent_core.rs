//! How the agent core answers its events.
use attini::sansio::agent::{
    Action, AgentCore, AgentMetrics, ApprovalState, CommandError, CommandOutputStream, Event,
    PatchPreview, PreviewHash, ReadOnlyTool, RequestId, Status, ToolExecutionError, ToolOutcome,
    ARGUMENTS_MAX_BYTES, TURN_TOOL_CALL_LIMIT,
};
use attini::sansio::deepseek::ChatMessage;

fn user(core: &mut AgentCore, text: &str) -> Vec<Action> {
    core.handle_event(Event::UserMessage(text.to_string()))
}

fn last_start_id(actions: &[Action]) -> RequestId {
    for action in actions {
        if let Action::StartRequest { id, .. } = action {
            return *id;
        }
    }
    panic!("no StartRequest in {actions:?}");
}

#[test]
fn user_message_from_idle_starts_request_and_appends_user_turn() {
    let mut core = AgentCore::new();
    let actions = user(&mut core, "hello");
    assert_eq!(core.status(), Status::AwaitingModel);
    assert_eq!(core.conversation().len(), 1);
    assert!(matches!(core.conversation()[0], ChatMessage::User(_)));
    assert!(matches!(actions[0], Action::StartRequest { .. }));
    assert!(actions.contains(&Action::Redraw));
    assert!(core.active_request().is_some());
}

#[test]
fn user_message_while_active_is_ignored() {
    let mut core = AgentCore::new();
    let _ = user(&mut core, "first");
    let actions = user(&mut core, "second");
    assert!(actions.is_empty());
    assert_eq!(core.conversation().len(), 1);
}

#[test]
fn content_delta_accumulates_and_flips_status_to_streaming() {
    let mut core = AgentCore::new();
    let id = last_start_id(&user(&mut core, "hi"));
    let actions = core.handle_event(Event::ContentDelta {
        request: id,
        text: "he".to_string(),
    });
    assert_eq!(actions, vec![Action::Redraw]);
    assert_eq!(core.status(), Status::Streaming);
    let _ = core.handle_event(Event::ContentDelta {
        request: id,
        text: "llo".to_string(),
    });
    let pending = core.pending_response().expect("pending");
    assert_eq!(pending.content, "hello");
}

#[test]
fn reasoning_delta_accumulates_separately_from_content() {
    let mut core = AgentCore::new();
    let id = last_start_id(&user(&mut core, "hi"));
    let _ = core.handle_event(Event::ReasoningDelta {
        request: id,
        text: "let me think".to_string(),
    });
    let pending = core.pending_response().expect("pending");
    assert_eq!(pending.reasoning, "let me think");
    assert!(pending.content.is_empty());
}

#[test]
fn finish_commits_assistant_turn_and_returns_to_idle() {
    let mut core = AgentCore::new();
    let id = last_start_id(&user(&mut core, "hi"));
    let _ = core.handle_event(Event::ContentDelta {
        request: id,
        text: "hello".to_string(),
    });
    let actions = core.handle_event(Event::Finish {
        request: id,
        reason: Some("stop".to_string()),
    });
    assert_eq!(actions, vec![Action::Redraw]);
    assert_eq!(core.status(), Status::Idle);
    assert!(core.active_request().is_none());
    assert!(core.pending_response().is_none());
    assert_eq!(core.conversation().len(), 2);
    match &core.conversation()[1] {
        ChatMessage::Assistant { content, .. } => assert_eq!(content, "hello"),
        other => panic!("expected assistant, got {other:?}"),
    }
}

#[test]
fn cancel_drops_pending_response_and_asks_transport_to_cancel() {
    let mut core = AgentCore::new();
    let id = last_start_id(&user(&mut core, "hi"));
    let _ = core.handle_event(Event::ContentDelta {
        request: id,
        text: "partial".to_string(),
    });
    let actions = core.handle_event(Event::Cancel);
    assert!(actions.contains(&Action::CancelRequest { id }));
    assert!(actions.contains(&Action::Redraw));
    assert_eq!(core.status(), Status::Idle);
    assert!(core.pending_response().is_none());
    assert_eq!(core.conversation().len(), 1);
}

#[test]
fn cancel_from_idle_is_no_op() {
    let mut core = AgentCore::new();
    assert!(core.handle_event(Event::Cancel).is_empty());
}

#[test]
fn transport_error_ends_request_and_reports_message() {
    let mut core = AgentCore::new();
    let id = last_start_id(&user(&mut core, "hi"));
    let actions = core.handle_event(Event::TransportError {
        request: id,
        message: "boom".to_string(),
    });
    assert!(actions.contains(&Action::ReportError {
        message: "boom".to_string(),
    }));
    assert!(actions.contains(&Action::Redraw));
    assert_eq!(core.status(), Status::Idle);
    assert!(core.pending_response().is_none());
    assert_eq!(core.conversation().len(), 1);
}

#[test]
fn timeout_cancels_transport_and_reports_error() {
    let mut core = AgentCore::new();
    let id = last_start_id(&user(&mut core, "hi"));
    let actions = core.handle_event(Event::Timeout { request: id });
    assert!(actions.contains(&Action::CancelRequest { id }));
    assert!(
        actions
            .iter()
            .any(|a| matches!(a, Action::ReportError { .. })),
        "expected ReportError, got {actions:?}",
    );
    assert!(actions.contains(&Action::Redraw));
    assert!(core.pending_response().is_none());
}

#[test]
fn stale_deltas_are_dropped_without_state_change() {
    let mut core = AgentCore::new();
    let id = last_start_id(&user(&mut core, "hi"));
    let _ = core.handle_event(Event::Finish {
        request: id,
        reason: Some("stop".to_string()),
    });
    // Late delta from the finished request.
    let actions = core.handle_event(Event::ContentDelta {
        request: id,
        text: "late".to_string(),
    });
    assert!(actions.is_empty());
    assert_eq!(core.conversation().len(), 2);
}

#[test]
fn events_tagged_with_unknown_id_are_dropped() {
    let mut core = AgentCore::new();
    let _ = user(&mut core, "hi");
    let actions = core.handle_event(Event::ContentDelta {
        request: RequestId::new(u64::MAX),
        text: "x".to_string(),
    });
    assert!(actions.is_empty());
    assert!(core.pending_response().expect("pending").content.is_empty());
}

#[test]
fn each_start_request_gets_a_unique_id() {
    let mut core = AgentCore::new();
    let id1 = last_start_id(&user(&mut core, "first"));
    let _ = core.handle_event(Event::Finish {
        request: id1,
        reason: None,
    });
    let id2 = last_start_id(&user(&mut core, "second"));
    assert_ne!(id1, id2);
}

#[test]
fn late_finish_after_cancel_is_ignored() {
    let mut core = AgentCore::new();
    let id = last_start_id(&user(&mut core, "hi"));
    let _ = core.handle_event(Event::Cancel);
    let actions = core.handle_event(Event::Finish {
        request: id,
        reason: Some("stop".to_string()),
    });
    assert!(actions.is_empty());
    assert_eq!(core.conversation().len(), 1);
}

#[test]
fn start_request_carries_full_conversation_snapshot() {
    let mut core = AgentCore::new();
    let id1 = last_start_id(&user(&mut core, "first"));
    let _ = core.handle_event(Event::ContentDelta {
        request: id1,
        text: "one".to_string(),
    });
    let _ = core.handle_event(Event::Finish {
        request: id1,
        reason: None,
    });
    let actions = user(&mut core, "second");
    let messages = actions.iter().find_map(|a| match a {
        Action::StartRequest { messages, .. } => Some(messages.clone()),
        _ => None,
    });
    let messages = messages.expect("StartRequest present");
    assert_eq!(messages.len(), 3);
    assert!(matches!(messages[0], ChatMessage::User(_)));
    assert!(matches!(messages[1], ChatMessage::Assistant { .. }));
    match &messages[2] {
        ChatMessage::User(content) => assert_eq!(content, "second"),
        other => panic!("expected user, got {other:?}"),
    }
}

#[test]
fn metrics_start_at_zero() {
    let core = AgentCore::new();
    assert_eq!(*core.metrics(), AgentMetrics::default());
}

#[test]
fn user_message_accepted_and_rejected_counters() {
    let mut core = AgentCore::new();
    let _ = user(&mut core, "first");
    assert_eq!(core.metrics().user_messages_accepted.get(), 1);
    assert_eq!(core.metrics().user_messages_rejected_while_active.get(), 0);
    // Second user message while first is still active is rejected.
    let _ = user(&mut core, "second");
    assert_eq!(core.metrics().user_messages_accepted.get(), 1);
    assert_eq!(core.metrics().user_messages_rejected_while_active.get(), 1);
}

#[test]
fn cancel_applied_and_ignored_counters() {
    let mut core = AgentCore::new();
    let _ = core.handle_event(Event::Cancel);
    assert_eq!(core.metrics().cancels_applied.get(), 0);
    assert_eq!(core.metrics().cancels_ignored_when_idle.get(), 1);
    let _ = user(&mut core, "hi");
    let _ = core.handle_event(Event::Cancel);
    assert_eq!(core.metrics().cancels_applied.get(), 1);
    assert_eq!(core.metrics().cancels_ignored_when_idle.get(), 1);
}

#[test]
fn content_delta_appended_and_dropped_counters() {
    let mut core = AgentCore::new();
    let id = last_start_id(&user(&mut core, "hi"));
    let _ = core.handle_event(Event::ContentDelta {
        request: id,
        text: "a".to_string(),
    });
    let _ = core.handle_event(Event::ContentDelta {
        request: RequestId::new(u64::MAX),
        text: "b".to_string(),
    });
    assert_eq!(core.metrics().content_deltas_appended.get(), 1);
    assert_eq!(core.metrics().content_deltas_dropped_as_stale.get(), 1);
}

#[test]
fn reasoning_delta_appended_and_dropped_counters() {
    let mut core = AgentCore::new();
    let id = last_start_id(&user(&mut core, "hi"));
    let _ = core.handle_event(Event::ReasoningDelta {
        request: id,
        text: "think".to_string(),
    });
    // No pending: dropped
    let _ = core.handle_event(Event::Cancel);
    let _ = core.handle_event(Event::ReasoningDelta {
        request: id,
        text: "late".to_string(),
    });
    assert_eq!(core.metrics().reasoning_deltas_appended.get(), 1);
    assert_eq!(core.metrics().reasoning_deltas_dropped_as_stale.get(), 1);
}

#[test]
fn finish_committed_and_dropped_counters() {
    let mut core = AgentCore::new();
    let id = last_start_id(&user(&mut core, "hi"));
    let _ = core.handle_event(Event::Finish {
        request: id,
        reason: None,
    });
    // Second finish for the (now completed) request is stale.
    let _ = core.handle_event(Event::Finish {
        request: id,
        reason: None,
    });
    assert_eq!(core.metrics().finishes_committed.get(), 1);
    assert_eq!(core.metrics().finishes_dropped_as_stale.get(), 1);
}

#[test]
fn transport_error_recorded_and_dropped_counters() {
    let mut core = AgentCore::new();
    let id = last_start_id(&user(&mut core, "hi"));
    let _ = core.handle_event(Event::TransportError {
        request: id,
        message: "boom".to_string(),
    });
    // No pending: dropped
    let _ = core.handle_event(Event::TransportError {
        request: id,
        message: "late".to_string(),
    });
    assert_eq!(core.metrics().transport_errors_recorded.get(), 1);
    assert_eq!(core.metrics().transport_errors_dropped_as_stale.get(), 1);
}

#[test]
fn timeout_applied_and_dropped_counters() {
    let mut core = AgentCore::new();
    let id = last_start_id(&user(&mut core, "hi"));
    let _ = core.handle_event(Event::Timeout { request: id });
    // No pending: dropped
    let _ = core.handle_event(Event::Timeout { request: id });
    assert_eq!(core.metrics().timeouts_applied.get(), 1);
    assert_eq!(core.metrics().timeouts_dropped_as_stale.get(), 1);
}

#[test]
fn other_counters_do_not_move_on_a_single_event() {
    let mut core = AgentCore::new();
    let _ = user(&mut core, "hi");
    let m = core.metrics();
    assert_eq!(m.user_messages_accepted.get(), 1);
    // Every other counter is zero.
    assert_eq!(m.user_messages_rejected_while_active.get(), 0);
    assert_eq!(m.cancels_applied.get(), 0);
    assert_eq!(m.cancels_ignored_when_idle.get(), 0);
    assert_eq!(m.content_deltas_appended.get(), 0);
    assert_eq!(m.content_deltas_dropped_as_stale.get(), 0);
    assert_eq!(m.reasoning_deltas_appended.get(), 0);
    assert_eq!(m.reasoning_deltas_dropped_as_stale.get(), 0);
    assert_eq!(m.finishes_committed.get(), 0);
    assert_eq!(m.finishes_dropped_as_stale.get(), 0);
    assert_eq!(m.transport_errors_recorded.get(), 0);
    assert_eq!(m.transport_errors_dropped_as_stale.get(), 0);
    assert_eq!(m.timeouts_applied.get(), 0);
    assert_eq!(m.timeouts_dropped_as_stale.get(), 0);
    assert_eq!(m.tool_call_deltas_appended.get(), 0);
    assert_eq!(m.tool_call_deltas_dropped_as_stale.get(), 0);
    assert_eq!(m.tool_call_arguments_fragments_dropped_over_limit.get(), 0);
    assert_eq!(m.tool_results_committed.get(), 0);
    assert_eq!(m.tool_results_dropped_as_stale.get(), 0);
    assert_eq!(m.tool_calls_executed.get(), 0);
    assert_eq!(m.tool_calls_rejected_by_turn_limit.get(), 0);
    assert_eq!(m.tool_calls_rejected_by_arguments_limit.get(), 0);
    assert_eq!(m.patch_calls_previewed.get(), 0);
    assert_eq!(m.patch_previews_committed.get(), 0);
    assert_eq!(m.patch_previews_dropped_as_stale.get(), 0);
    assert_eq!(m.tool_call_approvals_committed.get(), 0);
    assert_eq!(m.tool_call_approvals_dropped_as_stale.get(), 0);
    assert_eq!(m.tool_call_rejections_committed.get(), 0);
    assert_eq!(m.tool_call_rejections_dropped_as_stale.get(), 0);
    assert_eq!(m.command_calls_dispatched.get(), 0);
    assert_eq!(m.command_executions_started.get(), 0);
    assert_eq!(m.command_output_chunks_appended.get(), 0);
    assert_eq!(m.command_output_chunks_dropped_as_stale.get(), 0);
}

fn tool_call_delta(
    request: RequestId,
    index: u64,
    id: Option<&str>,
    function_name: Option<&str>,
    arguments_fragment: Option<&str>,
) -> Event {
    Event::ToolCallDelta {
        request,
        index,
        id: id.map(str::to_string),
        function_name: function_name.map(str::to_string),
        arguments_fragment: arguments_fragment.map(str::to_string),
    }
}

fn drive_single_tool_call(
    core: &mut AgentCore,
    request: RequestId,
    call_id: &str,
    function_name: &str,
    arguments_json: &str,
) -> Vec<Action> {
    let _ = core.handle_event(tool_call_delta(
        request,
        0,
        Some(call_id),
        Some(function_name),
        Some(arguments_json),
    ));
    core.handle_event(Event::Finish {
        request,
        reason: Some("tool_calls".to_string()),
    })
}

#[test]
fn tool_call_delta_merges_fragments_and_emits_execute_tool_on_finish() {
    let mut core = AgentCore::new();
    let id = last_start_id(&user(&mut core, "hi"));
    let _ = core.handle_event(tool_call_delta(
        id,
        0,
        Some("call_1"),
        Some("read"),
        Some(r#"{"path":""#),
    ));
    let _ = core.handle_event(tool_call_delta(id, 0, None, None, Some(r#"src/main.rs"}"#)));
    assert_eq!(core.metrics().tool_call_deltas_appended.get(), 2);
    let actions = core.handle_event(Event::Finish {
        request: id,
        reason: Some("tool_calls".to_string()),
    });
    assert_eq!(core.status(), Status::ToolRunning);
    assert_eq!(core.metrics().tool_calls_executed.get(), 1);
    assert!(actions.iter().any(|a| matches!(
        a,
        Action::ExecuteTool {
            call_id, invocation: ReadOnlyTool::Read { path, .. }, ..
        } if call_id == "call_1" && path == "src/main.rs"
    )));
    // Assistant turn was committed with the tool_calls attached.
    match &core.conversation()[1] {
        ChatMessage::Assistant { tool_calls, .. } => {
            assert_eq!(tool_calls.len(), 1);
            assert_eq!(tool_calls[0].function_name, "read");
        }
        other => panic!("expected assistant with tool_calls, got {other:?}"),
    }
}

#[test]
fn multiple_parallel_tool_calls_are_ordered_by_index() {
    let mut core = AgentCore::new();
    let id = last_start_id(&user(&mut core, "hi"));
    // Arrive out of order.
    let _ = core.handle_event(tool_call_delta(
        id,
        1,
        Some("b"),
        Some("list"),
        Some(r#"{"path":"src"}"#),
    ));
    let _ = core.handle_event(tool_call_delta(
        id,
        0,
        Some("a"),
        Some("read"),
        Some(r#"{"path":"README.md"}"#),
    ));
    let actions = core.handle_event(Event::Finish {
        request: id,
        reason: Some("tool_calls".to_string()),
    });
    let execute_ids: Vec<String> = actions
        .iter()
        .filter_map(|a| match a {
            Action::ExecuteTool { call_id, .. } => Some(call_id.clone()),
            _ => None,
        })
        .collect();
    assert_eq!(execute_ids, vec!["a".to_string(), "b".to_string()]);
}

#[test]
fn tool_result_completes_slot_and_advances_to_next_request() {
    let mut core = AgentCore::new();
    let id = last_start_id(&user(&mut core, "hi"));
    let _ = drive_single_tool_call(&mut core, id, "call_1", "list", r#"{"path":"."}"#);
    assert_eq!(core.status(), Status::ToolRunning);
    let actions = core.handle_event(Event::ToolResult {
        request: id,
        call_id: "call_1".to_string(),
        outcome: ToolOutcome::Success(r#"[{"path":"a"}]"#.to_string()),
    });
    assert_eq!(core.metrics().tool_results_committed.get(), 1);
    // New request started with a fresh id, conversation now has
    // user + assistant(tool_calls) + tool + <no assistant yet>.
    let start = actions
        .iter()
        .find_map(|a| match a {
            Action::StartRequest { id, messages } => Some((*id, messages.clone())),
            _ => None,
        })
        .expect("StartRequest emitted");
    assert_ne!(start.0, id);
    assert_eq!(start.1.len(), 3);
    assert!(matches!(start.1[2], ChatMessage::Tool { .. }));
    assert_eq!(core.status(), Status::AwaitingModel);
}

#[test]
fn tool_result_before_all_arrive_stays_in_tool_running() {
    let mut core = AgentCore::new();
    let id = last_start_id(&user(&mut core, "hi"));
    let _ = core.handle_event(tool_call_delta(
        id,
        0,
        Some("a"),
        Some("read"),
        Some(r#"{"path":"a"}"#),
    ));
    let _ = core.handle_event(tool_call_delta(
        id,
        1,
        Some("b"),
        Some("read"),
        Some(r#"{"path":"b"}"#),
    ));
    let _ = core.handle_event(Event::Finish {
        request: id,
        reason: Some("tool_calls".to_string()),
    });
    let actions = core.handle_event(Event::ToolResult {
        request: id,
        call_id: "a".to_string(),
        outcome: ToolOutcome::Success("ok".to_string()),
    });
    assert_eq!(core.status(), Status::ToolRunning);
    assert_eq!(actions, vec![Action::Redraw]);
}

#[test]
fn tool_result_with_unknown_call_id_is_dropped_as_stale() {
    let mut core = AgentCore::new();
    let id = last_start_id(&user(&mut core, "hi"));
    let _ = drive_single_tool_call(&mut core, id, "call_1", "list", r#"{"path":"."}"#);
    let actions = core.handle_event(Event::ToolResult {
        request: id,
        call_id: "does_not_exist".to_string(),
        outcome: ToolOutcome::Success("ok".to_string()),
    });
    assert!(actions.is_empty());
    assert_eq!(core.metrics().tool_results_dropped_as_stale.get(), 1);
}

#[test]
fn arguments_over_limit_yields_synthetic_arguments_too_large_err() {
    let mut core = AgentCore::new();
    let id = last_start_id(&user(&mut core, "hi"));
    let _ = core.handle_event(tool_call_delta(
        id,
        0,
        Some("call_big"),
        Some("read"),
        Some(&"x".repeat(ARGUMENTS_MAX_BYTES + 1)),
    ));
    assert_eq!(
        core.metrics()
            .tool_call_arguments_fragments_dropped_over_limit
            .get(),
        1
    );
    let actions = core.handle_event(Event::Finish {
        request: id,
        reason: Some("tool_calls".to_string()),
    });
    assert_eq!(
        core.metrics().tool_calls_rejected_by_arguments_limit.get(),
        1
    );
    assert_eq!(core.metrics().tool_calls_executed.get(), 0);
    // The synthetic Err resolves all results immediately; a new
    // StartRequest must have been emitted with the Tool message
    // carrying the arguments_too_large payload.
    let messages = actions
        .iter()
        .find_map(|a| match a {
            Action::StartRequest { messages, .. } => Some(messages.clone()),
            _ => None,
        })
        .expect("StartRequest emitted");
    let tool_msg = messages
        .iter()
        .find_map(|m| match m {
            ChatMessage::Tool { content, .. } => Some(content),
            _ => None,
        })
        .expect("Tool message present");
    assert!(tool_msg.contains("arguments_too_large"));
}

#[test]
fn turn_tool_call_limit_forces_synthetic_err_for_extras() {
    let mut core = AgentCore::new();
    let id = last_start_id(&user(&mut core, "hi"));
    // 21 tool calls, indices 0..=20. Limit is 20.
    for i in 0..=TURN_TOOL_CALL_LIMIT as u64 {
        let call_id = format!("c{i}");
        let _ = core.handle_event(tool_call_delta(
            id,
            i,
            Some(&call_id),
            Some("list"),
            Some(r#"{"path":"."}"#),
        ));
    }
    let _ = core.handle_event(Event::Finish {
        request: id,
        reason: Some("tool_calls".to_string()),
    });
    assert_eq!(
        core.metrics().tool_calls_executed.get(),
        TURN_TOOL_CALL_LIMIT as u64
    );
    assert_eq!(core.metrics().tool_calls_rejected_by_turn_limit.get(), 1);
}

#[test]
fn unknown_function_name_yields_synthetic_unknown_tool_err() {
    let mut core = AgentCore::new();
    let id = last_start_id(&user(&mut core, "hi"));
    let actions = drive_single_tool_call(&mut core, id, "call_1", "bogus", r#"{}"#);
    // Since it's synthetic Err (all resolved), next StartRequest is emitted.
    let messages = actions
        .iter()
        .find_map(|a| match a {
            Action::StartRequest { messages, .. } => Some(messages.clone()),
            _ => None,
        })
        .expect("StartRequest emitted");
    let tool_content = messages
        .iter()
        .find_map(|m| match m {
            ChatMessage::Tool { content, .. } => Some(content.clone()),
            _ => None,
        })
        .expect("Tool message present");
    assert!(tool_content.contains("unknown_tool"));
    assert_eq!(core.metrics().tool_calls_executed.get(), 0);
}

#[test]
fn cancel_in_tool_running_emits_cancel_tool_execution() {
    let mut core = AgentCore::new();
    let id = last_start_id(&user(&mut core, "hi"));
    let _ = drive_single_tool_call(&mut core, id, "call_1", "list", r#"{"path":"."}"#);
    assert_eq!(core.status(), Status::ToolRunning);
    let actions = core.handle_event(Event::Cancel);
    assert!(actions.contains(&Action::CancelToolExecution { request: id }));
    assert_eq!(core.status(), Status::Idle);
    assert!(core.pending_response().is_none());
}

#[test]
fn transport_error_dropped_in_tool_running_phase() {
    let mut core = AgentCore::new();
    let id = last_start_id(&user(&mut core, "hi"));
    let _ = drive_single_tool_call(&mut core, id, "call_1", "list", r#"{"path":"."}"#);
    let actions = core.handle_event(Event::TransportError {
        request: id,
        message: "should be ignored".to_string(),
    });
    assert!(actions.is_empty());
    assert_eq!(core.metrics().transport_errors_dropped_as_stale.get(), 1);
    assert_eq!(core.status(), Status::ToolRunning);
}

#[test]
fn tool_result_dropped_in_streaming_phase() {
    let mut core = AgentCore::new();
    let id = last_start_id(&user(&mut core, "hi"));
    // We are still in Streaming phase — no tool_calls finish yet.
    let actions = core.handle_event(Event::ToolResult {
        request: id,
        call_id: "call_1".to_string(),
        outcome: ToolOutcome::Success("x".to_string()),
    });
    assert!(actions.is_empty());
    assert_eq!(core.metrics().tool_results_dropped_as_stale.get(), 1);
}

#[test]
fn tool_calls_this_turn_resets_between_user_turns() {
    let mut core = AgentCore::new();
    let id = last_start_id(&user(&mut core, "hi"));
    let _ = drive_single_tool_call(&mut core, id, "call_1", "list", r#"{"path":"."}"#);
    // Provide result to advance out of tool loop; also emit a
    // final stop-finish so we return to Idle.
    let next_id = {
        let actions = core.handle_event(Event::ToolResult {
            request: id,
            call_id: "call_1".to_string(),
            outcome: ToolOutcome::Success("ok".to_string()),
        });
        last_start_id(&actions)
    };
    let _ = core.handle_event(Event::Finish {
        request: next_id,
        reason: Some("stop".to_string()),
    });
    assert_eq!(core.status(), Status::Idle);
    // A brand-new user turn should reset the counter and be able
    // to emit up to TURN_TOOL_CALL_LIMIT executions again.
    let id2 = last_start_id(&user(&mut core, "second"));
    let _ = drive_single_tool_call(&mut core, id2, "c2", "list", r#"{"path":"."}"#);
    assert_eq!(core.metrics().tool_calls_executed.get(), 2);
    assert_eq!(core.metrics().tool_calls_rejected_by_turn_limit.get(), 0);
}

#[test]
fn finish_with_tool_calls_reason_but_no_slots_falls_through_to_idle() {
    let mut core = AgentCore::new();
    let id = last_start_id(&user(&mut core, "hi"));
    let actions = core.handle_event(Event::Finish {
        request: id,
        reason: Some("tool_calls".to_string()),
    });
    assert_eq!(actions, vec![Action::Redraw]);
    assert_eq!(core.status(), Status::Idle);
    assert_eq!(core.conversation().len(), 2);
}

fn drive_single_patch_call(
    core: &mut AgentCore,
    request: RequestId,
    call_id: &str,
    arguments_json: &str,
) -> Vec<Action> {
    let _ = core.handle_event(tool_call_delta(
        request,
        0,
        Some(call_id),
        Some("patch"),
        Some(arguments_json),
    ));
    core.handle_event(Event::Finish {
        request,
        reason: Some("tool_calls".to_string()),
    })
}

fn valid_add_patch_json() -> &'static str {
    r#"{"edits":[{"kind":"add","path":"new.txt","content":"hi"}]}"#
}

#[test]
fn patch_finish_emits_preview_patch_and_stays_in_tool_running() {
    let mut core = AgentCore::new();
    let id = last_start_id(&user(&mut core, "hi"));
    let actions = drive_single_patch_call(&mut core, id, "p1", valid_add_patch_json());

    assert_eq!(core.status(), Status::ToolRunning);
    assert!(actions.iter().any(|a| matches!(
        a,
        Action::PreviewPatch { call_id, .. } if call_id == "p1"
    )));
    assert_eq!(core.metrics().patch_calls_previewed.get(), 1);
    // no approval-visible call_id yet — preview not received
    assert_eq!(core.pending_approval_call_id(), None);
}

#[test]
fn patch_preview_ready_transitions_to_awaiting_approval_and_publishes_call_id() {
    let mut core = AgentCore::new();
    let id = last_start_id(&user(&mut core, "hi"));
    let _ = drive_single_patch_call(&mut core, id, "p1", valid_add_patch_json());

    let hash = PreviewHash {
        path: "new.txt".to_string(),
        sha256: None,
    };
    let preview = PatchPreview {
        target_paths: vec!["new.txt".to_string()],
        added_lines: 1,
        removed_lines: 0,
        edit_count: 1,
    };
    let actions = core.handle_event(Event::PatchPreviewReady {
        request: id,
        call_id: "p1".to_string(),
        preview_hashes: vec![hash],
        preview,
    });

    assert_eq!(actions, vec![Action::Redraw]);
    assert_eq!(core.status(), Status::AwaitingApproval);
    assert_eq!(core.pending_approval_call_id(), Some("p1".to_string()));
    assert_eq!(core.metrics().patch_previews_committed.get(), 1);

    let active = core.active_tool_calls();
    assert_eq!(active.len(), 1);
    assert_eq!(active[0].approval, ApprovalState::Pending);
    assert!(active[0].patch_preview.is_some());
}

#[test]
fn patch_approve_emits_apply_patch_with_stored_hashes() {
    let mut core = AgentCore::new();
    let id = last_start_id(&user(&mut core, "hi"));
    let _ = drive_single_patch_call(&mut core, id, "p1", valid_add_patch_json());
    let hash = PreviewHash {
        path: "new.txt".to_string(),
        sha256: Some([7u8; 32]),
    };
    let _ = core.handle_event(Event::PatchPreviewReady {
        request: id,
        call_id: "p1".to_string(),
        preview_hashes: vec![hash.clone()],
        preview: PatchPreview::default(),
    });

    let actions = core.handle_event(Event::ApproveToolCall {
        call_id: "p1".to_string(),
    });

    let apply = actions
        .iter()
        .find_map(|a| match a {
            Action::ApplyPatch {
                call_id,
                preview_hashes,
                ..
            } => Some((call_id.clone(), preview_hashes.clone())),
            _ => None,
        })
        .expect("ApplyPatch emitted");
    assert_eq!(apply.0, "p1");
    assert_eq!(apply.1, vec![hash]);
    assert_eq!(core.metrics().tool_call_approvals_committed.get(), 1);
    // Approved but not yet resolved — approval left, phase now ToolRunning.
    assert_eq!(core.status(), Status::ToolRunning);
    assert!(core.pending_approval_call_id().is_none());
}

#[test]
fn patch_reject_synthesizes_err_and_advances_when_last() {
    let mut core = AgentCore::new();
    let id = last_start_id(&user(&mut core, "hi"));
    let _ = drive_single_patch_call(&mut core, id, "p1", valid_add_patch_json());
    let _ = core.handle_event(Event::PatchPreviewReady {
        request: id,
        call_id: "p1".to_string(),
        preview_hashes: Vec::new(),
        preview: PatchPreview::default(),
    });

    let actions = core.handle_event(Event::RejectToolCall {
        call_id: "p1".to_string(),
    });

    // Rejection is the only outstanding result → advance emits StartRequest.
    assert!(
        actions
            .iter()
            .any(|a| matches!(a, Action::StartRequest { .. }))
    );
    assert_eq!(core.metrics().tool_call_rejections_committed.get(), 1);
    // The synthetic Tool message contains the patch_rejected code.
    let last = core.conversation().last().expect("has tool message");
    match last {
        ChatMessage::Tool { content, .. } => {
            assert!(content.contains("patch_rejected"), "content={content}");
        }
        other => panic!("expected Tool, got {other:?}"),
    }
}

#[test]
fn patch_approve_dropped_if_no_pending_call() {
    let mut core = AgentCore::new();
    let _ = user(&mut core, "hi");
    let actions = core.handle_event(Event::ApproveToolCall {
        call_id: "nope".to_string(),
    });
    assert!(actions.is_empty());
    assert_eq!(core.metrics().tool_call_approvals_dropped_as_stale.get(), 1);
}

#[test]
fn patch_preview_ready_dropped_if_call_id_unknown() {
    let mut core = AgentCore::new();
    let id = last_start_id(&user(&mut core, "hi"));
    let _ = drive_single_patch_call(&mut core, id, "p1", valid_add_patch_json());
    let actions = core.handle_event(Event::PatchPreviewReady {
        request: id,
        call_id: "does_not_exist".to_string(),
        preview_hashes: Vec::new(),
        preview: PatchPreview::default(),
    });
    assert!(actions.is_empty());
    assert_eq!(core.metrics().patch_previews_dropped_as_stale.get(), 1);
}

#[test]
fn read_only_result_lands_in_awaiting_approval_phase() {
    let mut core = AgentCore::new();
    let id = last_start_id(&user(&mut core, "hi"));
    // Two tool calls: one read-only, one patch. Patch first sets
    // approval pending after preview → phase AwaitingApproval;
    // read-only ToolResult must still land in that phase.
    let _ = core.handle_event(tool_call_delta(
        id,
        0,
        Some("r1"),
        Some("list"),
        Some(r#"{"path":"."}"#),
    ));
    let _ = core.handle_event(tool_call_delta(
        id,
        1,
        Some("p1"),
        Some("patch"),
        Some(valid_add_patch_json()),
    ));
    let _ = core.handle_event(Event::Finish {
        request: id,
        reason: Some("tool_calls".to_string()),
    });
    let _ = core.handle_event(Event::PatchPreviewReady {
        request: id,
        call_id: "p1".to_string(),
        preview_hashes: Vec::new(),
        preview: PatchPreview::default(),
    });
    assert_eq!(core.status(), Status::AwaitingApproval);

    let actions = core.handle_event(Event::ToolResult {
        request: id,
        call_id: "r1".to_string(),
        outcome: ToolOutcome::Success("ok".to_string()),
    });
    assert_eq!(core.metrics().tool_results_committed.get(), 1);
    assert_eq!(actions, vec![Action::Redraw]);
    // Still in approval phase because patch is not yet resolved.
    assert_eq!(core.status(), Status::AwaitingApproval);
}

fn drive_single_command_call(
    core: &mut AgentCore,
    request: RequestId,
    call_id: &str,
    arguments_json: &str,
) -> Vec<Action> {
    let _ = core.handle_event(tool_call_delta(
        request,
        0,
        Some(call_id),
        Some("command"),
        Some(arguments_json),
    ));
    core.handle_event(Event::Finish {
        request,
        reason: Some("tool_calls".to_string()),
    })
}

fn valid_command_json() -> &'static str {
    r#"{"argv":["echo","hi"]}"#
}

#[test]
fn command_finish_populates_command_preview_and_marks_pending() {
    let mut core = AgentCore::new();
    core.set_workspace_display("/tmp/wksp".to_string());
    let id = last_start_id(&user(&mut core, "hi"));
    let actions = drive_single_command_call(&mut core, id, "c1", valid_command_json());

    // No ExecuteCommand yet — that only fires on approval.
    assert!(
        !actions
            .iter()
            .any(|a| matches!(a, Action::ExecuteCommand { .. }))
    );
    assert_eq!(core.status(), Status::AwaitingApproval);
    assert_eq!(core.metrics().command_calls_dispatched.get(), 1);

    let active = core.active_tool_calls();
    assert_eq!(active.len(), 1);
    assert_eq!(active[0].approval, ApprovalState::Pending);
    let preview = active[0]
        .command_preview
        .as_ref()
        .expect("preview populated");
    assert_eq!(preview.argv, vec!["echo".to_string(), "hi".to_string()]);
    assert_eq!(preview.working_directory, "/tmp/wksp");
    assert_eq!(core.pending_approval_call_id(), Some("c1".to_string()));
}

#[test]
fn command_approve_emits_execute_command_action() {
    let mut core = AgentCore::new();
    let id = last_start_id(&user(&mut core, "hi"));
    let _ = drive_single_command_call(&mut core, id, "c1", valid_command_json());

    let actions = core.handle_event(Event::ApproveToolCall {
        call_id: "c1".to_string(),
    });

    assert_eq!(core.metrics().tool_call_approvals_committed.get(), 1);
    assert_eq!(core.metrics().command_executions_started.get(), 1);
    let matched = actions.iter().any(|a| {
        matches!(
            a,
            Action::ExecuteCommand { call_id, invocation, .. }
                if call_id == "c1"
                    && invocation.argv == vec!["echo".to_string(), "hi".to_string()]
        )
    });
    assert!(matched, "expected ExecuteCommand, got {actions:?}");
    assert_eq!(core.status(), Status::ToolRunning);
}

#[test]
fn command_reject_synthesizes_command_rejected_err() {
    let mut core = AgentCore::new();
    let id = last_start_id(&user(&mut core, "hi"));
    let _ = drive_single_command_call(&mut core, id, "c1", valid_command_json());

    let actions = core.handle_event(Event::RejectToolCall {
        call_id: "c1".to_string(),
    });

    assert_eq!(core.metrics().tool_call_rejections_committed.get(), 1);
    // Advance emits StartRequest with the synthetic Tool message.
    let start = actions
        .iter()
        .find_map(|a| match a {
            Action::StartRequest { messages, .. } => Some(messages.clone()),
            _ => None,
        })
        .expect("StartRequest emitted");
    let tool_msg = start
        .iter()
        .rev()
        .find_map(|m| match m {
            ChatMessage::Tool { content, .. } => Some(content.clone()),
            _ => None,
        })
        .expect("Tool message present");
    assert!(tool_msg.contains("command_rejected"), "content={tool_msg}");
}

#[test]
fn command_output_chunk_appends_to_tail_when_approved() {
    let mut core = AgentCore::new();
    let id = last_start_id(&user(&mut core, "hi"));
    let _ = drive_single_command_call(&mut core, id, "c1", valid_command_json());
    let _ = core.handle_event(Event::ApproveToolCall {
        call_id: "c1".to_string(),
    });

    let _ = core.handle_event(Event::CommandOutputChunk {
        request: id,
        call_id: "c1".to_string(),
        stream: CommandOutputStream::Stdout,
        bytes: b"line 1\n".to_vec(),
    });
    let _ = core.handle_event(Event::CommandOutputChunk {
        request: id,
        call_id: "c1".to_string(),
        stream: CommandOutputStream::Stderr,
        bytes: b"warn\n".to_vec(),
    });

    assert_eq!(core.metrics().command_output_chunks_appended.get(), 2);
    let active = core.active_tool_calls();
    let tail = active[0]
        .command_output_tail
        .as_ref()
        .expect("tail populated");
    assert_eq!(tail.stdout_tail, "line 1\n");
    assert_eq!(tail.stderr_tail, "warn\n");
    assert_eq!(tail.stdout_bytes_total, 7);
    assert_eq!(tail.stderr_bytes_total, 5);
}

#[test]
fn command_output_chunk_dropped_if_not_approved() {
    let mut core = AgentCore::new();
    let id = last_start_id(&user(&mut core, "hi"));
    let _ = drive_single_command_call(&mut core, id, "c1", valid_command_json());
    // Still Pending, not yet Approved → chunk must drop as stale.

    let actions = core.handle_event(Event::CommandOutputChunk {
        request: id,
        call_id: "c1".to_string(),
        stream: CommandOutputStream::Stdout,
        bytes: b"early".to_vec(),
    });
    assert!(actions.is_empty());
    assert_eq!(
        core.metrics().command_output_chunks_dropped_as_stale.get(),
        1
    );
}

#[test]
fn timeout_while_tools_run_ends_the_request() {
    let mut core = AgentCore::new();
    let id = last_start_id(&user(&mut core, "hi"));
    let _ = drive_single_tool_call(&mut core, id, "call_1", "list", r#"{"path":"."}"#);
    assert_eq!(core.status(), Status::ToolRunning);
    let actions = core.handle_event(Event::Timeout { request: id });
    assert!(actions.contains(&Action::CancelToolExecution { request: id }));
    assert!(actions.iter().any(|a| matches!(a, Action::ReportError { .. })));
    assert!(actions.contains(&Action::Redraw));
    assert_eq!(core.status(), Status::Idle);
    assert_eq!(core.active_request(), None);
    assert_eq!(core.metrics().timeouts_applied.get(), 1);
    assert_eq!(core.metrics().timeouts_dropped_as_stale.get(), 0);
}

#[test]
fn timeout_while_approval_is_awaited_ends_the_request() {
    let mut core = AgentCore::new();
    let id = last_start_id(&user(&mut core, "hi"));
    let _ = drive_single_command_call(&mut core, id, "call_1", valid_command_json());
    assert_eq!(core.status(), Status::AwaitingApproval);
    let actions = core.handle_event(Event::Timeout { request: id });
    assert!(actions.contains(&Action::CancelToolExecution { request: id }));
    assert_eq!(core.status(), Status::Idle);
    assert_eq!(core.pending_approval_call_id(), None);
}

/// A core in which a command waits for approval and has an outcome already,
/// beside a listing that has none.
fn command_with_an_outcome() -> AgentCore {
    let mut core = AgentCore::new();
    let id = last_start_id(&user(&mut core, "hi"));
    let _ = core.handle_event(tool_call_delta(
        id,
        0,
        Some("call_1"),
        Some("command"),
        Some(valid_command_json()),
    ));
    let _ = core.handle_event(tool_call_delta(
        id,
        1,
        Some("call_2"),
        Some("list"),
        Some(r#"{"path":"."}"#),
    ));
    let _ = core.handle_event(Event::Finish {
        request: id,
        reason: Some("tool_calls".to_string()),
    });
    assert_eq!(core.status(), Status::AwaitingApproval);
    assert_eq!(core.pending_approval_call_id(), Some("call_1".to_string()));
    let _ = core.handle_event(Event::ToolResult {
        request: id,
        call_id: "call_1".to_string(),
        outcome: ToolOutcome::Success("done".to_string()),
    });
    core
}

#[test]
fn no_call_with_an_outcome_awaits_approval() {
    let core = command_with_an_outcome();
    assert_eq!(core.pending_approval_call_id(), None);
    assert_eq!(core.status(), Status::ToolRunning);
}

#[test]
fn a_pending_call_with_an_outcome_can_still_be_approved() {
    let mut core = command_with_an_outcome();
    let approve = Event::ApproveToolCall {
        call_id: "call_1".to_string(),
    };
    let actions = core.handle_event(approve.clone());
    assert!(matches!(actions[0], Action::ExecuteCommand { .. }));
    assert_eq!(actions[1], Action::Redraw);
    assert_eq!(core.metrics().tool_call_approvals_committed.get(), 1);
    assert_eq!(core.metrics().command_executions_started.get(), 1);
    let call = &core.active_tool_calls()[0];
    assert_eq!(call.approval, ApprovalState::Approved);
    assert_eq!(call.outcome, Some(ToolOutcome::Success("done".to_string())));
    assert!(core.handle_event(approve).is_empty());
    assert_eq!(core.metrics().tool_call_approvals_dropped_as_stale.get(), 1);
}

#[test]
fn a_rejection_overwrites_the_outcome_of_a_pending_call() {
    let mut core = command_with_an_outcome();
    let actions = core.handle_event(Event::RejectToolCall {
        call_id: "call_1".to_string(),
    });
    assert_eq!(actions, vec![Action::Redraw]);
    assert_eq!(core.metrics().tool_call_rejections_committed.get(), 1);
    let call = &core.active_tool_calls()[0];
    assert_eq!(call.approval, ApprovalState::Rejected);
    assert_eq!(
        call.outcome,
        Some(ToolOutcome::Failure(ToolExecutionError::Command(CommandError::Rejected)))
    );
}

#[test]
fn request_ids_grow_over_a_run() {
    let mut core = AgentCore::new();
    let mut ids: Vec<RequestId> = Vec::new();
    for round in 0..4 {
        let id = last_start_id(&user(&mut core, "hi"));
        assert!(!ids.contains(&id));
        ids.push(id);
        let _ = core.handle_event(if round % 2 == 0 {
            Event::Cancel
        } else {
            Event::Timeout { request: id }
        });
    }
    let id = last_start_id(&user(&mut core, "tools"));
    assert!(!ids.contains(&id));
    ids.push(id);
    let _ = drive_single_tool_call(&mut core, id, "call_1", "list", r#"{"path":"."}"#);
    let actions = core.handle_event(Event::ToolResult {
        request: id,
        call_id: "call_1".to_string(),
        outcome: ToolOutcome::Success("x".to_string()),
    });
    assert!(!ids.contains(&last_start_id(&actions)));
}

#[test]
fn deltas_add_up_across_other_events() {
    let mut core = AgentCore::new();
    let id = last_start_id(&user(&mut core, "hi"));
    for piece in ["a", "b", "c"] {
        let _ = core.handle_event(Event::ContentDelta {
            request: id,
            text: piece.to_string(),
        });
        let _ = core.handle_event(Event::ReasoningDelta {
            request: id,
            text: piece.to_uppercase(),
        });
        let _ = core.handle_event(tool_call_delta(id, 7, Some("k"), Some("list"), Some(piece)));
        let _ = user(&mut core, "not now");
    }
    let pending = core.pending_response().expect("pending");
    assert_eq!(pending.content, "abc");
    assert_eq!(pending.reasoning, "ABC");
    let _ = core.handle_event(Event::Finish {
        request: id,
        reason: Some("tool_calls".to_string()),
    });
    assert!(core.conversation().iter().any(|m| matches!(
        m,
        ChatMessage::Assistant { tool_calls, .. } if tool_calls[0].arguments_json == "abc"
    )));
}

#[test]
fn every_event_is_counted_in_one_pair() {
    let mut core = AgentCore::new();
    for _ in 0..5 {
        let _ = user(&mut core, "hi");
    }
    let m = core.metrics();
    assert_eq!(m.user_messages_accepted.get() + m.user_messages_rejected_while_active.get(), 5);
    let stale = RequestId(99);
    for _ in 0..3 {
        let _ = core.handle_event(Event::ContentDelta {
            request: stale,
            text: "x".to_string(),
        });
    }
    let m = core.metrics();
    assert_eq!(m.content_deltas_appended.get() + m.content_deltas_dropped_as_stale.get(), 3);
    assert_eq!(m.user_messages_accepted.get() + m.user_messages_rejected_while_active.get(), 5);
}

#[test]
fn a_preview_for_a_call_that_is_no_patch_is_dropped() {
    let mut core = AgentCore::new();
    let id = last_start_id(&user(&mut core, "hi"));
    let _ = drive_single_tool_call(&mut core, id, "call_1", "list", r#"{"path":"."}"#);
    let actions = core.handle_event(Event::PatchPreviewReady {
        request: id,
        call_id: "call_1".to_string(),
        preview_hashes: vec![],
        preview: PatchPreview {
            target_paths: vec![],
            added_lines: 0,
            removed_lines: 0,
            edit_count: 0,
        },
    });
    assert!(actions.is_empty());
    assert_eq!(core.metrics().patch_previews_dropped_as_stale.get(), 1);
    assert_eq!(core.status(), Status::ToolRunning);
    assert_eq!(core.pending_approval_call_id(), None);
}

fn counts(m: &AgentMetrics) -> Vec<u64> {
    vec![
        m.user_messages_accepted.get(),
        m.user_messages_rejected_while_active.get(),
        m.cancels_applied.get(),
        m.cancels_ignored_when_idle.get(),
        m.content_deltas_appended.get(),
        m.content_deltas_dropped_as_stale.get(),
        m.reasoning_deltas_appended.get(),
        m.reasoning_deltas_dropped_as_stale.get(),
        m.finishes_committed.get(),
        m.finishes_dropped_as_stale.get(),
        m.transport_errors_recorded.get(),
        m.transport_errors_dropped_as_stale.get(),
        m.timeouts_applied.get(),
        m.timeouts_dropped_as_stale.get(),
        m.tool_call_deltas_appended.get(),
        m.tool_call_deltas_dropped_as_stale.get(),
        m.tool_call_arguments_fragments_dropped_over_limit.get(),
        m.tool_results_committed.get(),
        m.tool_results_dropped_as_stale.get(),
        m.tool_calls_executed.get(),
        m.tool_calls_rejected_by_turn_limit.get(),
        m.tool_calls_rejected_by_arguments_limit.get(),
        m.patch_calls_previewed.get(),
        m.patch_previews_committed.get(),
        m.patch_previews_dropped_as_stale.get(),
        m.tool_call_approvals_committed.get(),
        m.tool_call_approvals_dropped_as_stale.get(),
        m.tool_call_rejections_committed.get(),
        m.tool_call_rejections_dropped_as_stale.get(),
        m.command_calls_dispatched.get(),
        m.command_executions_started.get(),
        m.command_output_chunks_appended.get(),
        m.command_output_chunks_dropped_as_stale.get(),
    ]
}

#[test]
fn counters_never_go_down() {
    let mut core = AgentCore::new();
    let id = RequestId(0);
    let events = [
        Event::Cancel,
        Event::UserMessage("hi".to_string()),
        Event::UserMessage("again".to_string()),
        tool_call_delta(id, 0, Some("a"), Some("list"), Some(r#"{"path":"."}"#)),
        tool_call_delta(id, 1, Some("b"), Some("command"), Some(valid_command_json())),
        tool_call_delta(id, 2, Some("c"), Some("list"), Some("{")),
        tool_call_delta(id, 3, Some("d"), Some("list"), Some(&"x".repeat(ARGUMENTS_MAX_BYTES + 1))),
        Event::Finish { request: id, reason: Some("tool_calls".to_string()) },
        Event::ApproveToolCall { call_id: "b".to_string() },
        Event::ApproveToolCall { call_id: "b".to_string() },
        Event::RejectToolCall { call_id: "z".to_string() },
        Event::Timeout { request: id },
        Event::Timeout { request: id },
    ];
    for event in events {
        let before = counts(core.metrics());
        let _ = core.handle_event(event);
        let after = counts(core.metrics());
        assert!(before.iter().zip(&after).all(|(b, a)| b <= a));
        assert_ne!(before, after);
    }
    assert_eq!(core.metrics().tool_calls_executed.get(), 1);
    assert_eq!(core.metrics().tool_calls_rejected_by_arguments_limit.get(), 1);
    assert_eq!(core.metrics().command_executions_started.get(), 1);
}

#[test]
fn a_cloned_core_goes_its_own_way() {
    let mut core = AgentCore::new();
    let _ = user(&mut core, "hi");
    let mut copy = core.clone();
    assert_eq!(copy.conversation(), core.conversation());
    assert_eq!(copy.active_request(), core.active_request());
    let _ = copy.handle_event(Event::Cancel);
    assert_eq!(copy.status(), Status::Idle);
    assert_eq!(core.status(), Status::AwaitingModel);
}
