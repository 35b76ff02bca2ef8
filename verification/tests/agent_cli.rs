//! The agent loop: its caps, its summaries and its transcripts.
use attini::agent_cli::compaction::{compaction_cutoff, is_safe_boundary, safe_tail_start};
use attini::agent_cli::prompt::{
    render_workspace_context, resolve_reference, GitFacts, REFERENCE_MAX_BYTES,
};
use attini::agent_cli::prose::{
    abbreviate_args, render_records_prose, render_summary_block, render_summary_transcript,
    truncate_prose, SUMMARY_RECORD_MAX_CHARS,
};
use attini::agent_cli::repair::repair_messages;
use attini::agent_cli::summary::pick_summary_text;
use attini::agent_cli::wording::{command_result_json, render_agent_status_line};
use attini::agent_cli::{AgentConfig, GateDecision, RateLimit, ToolCallGate};
use attini::curl::CallResult;
use attini::sansio::deepseek::{ChatMessage, ToolCall};
use attini::sansio::permissions::Authorization;
use attini::session::ChatMessageWithTs;
use attini::time::{Duration, Instant};

fn user(ts: u64) -> ChatMessageWithTs {
    ChatMessageWithTs {
        message: ChatMessage::User(format!("u{ts}")),
        ts,
    }
}

fn assistant_plain(ts: u64) -> ChatMessageWithTs {
    ChatMessageWithTs {
        message: ChatMessage::assistant_text(&format!("a{ts}")),
        ts,
    }
}

fn assistant_with_tool_call(ts: u64) -> ChatMessageWithTs {
    ChatMessageWithTs {
        message: ChatMessage::Assistant {
            content: String::new(),
            reasoning_content: None,
            tool_calls: vec![ToolCall {
                id: format!("call_{ts}"),
                function_name: "read".to_string(),
                arguments_json: "{}".to_string(),
            }],
        },
        ts,
    }
}

fn tool(ts: u64) -> ChatMessageWithTs {
    ChatMessageWithTs {
        message: ChatMessage::Tool {
            tool_call_id: format!("call_{ts}"),
            content: "{}".to_string(),
        },
        ts,
    }
}

fn no_git() -> GitFacts {
    GitFacts {
        toplevel: None,
        branch: None,
        git_dir: None,
    }
}

#[test]
fn workspace_context_degrades_when_not_a_repo() {
    let ctx = render_workspace_context("/definitely/not/a/repo", &no_git());
    assert!(ctx.starts_with("# Workspace context\n\n"));
    assert!(ctx.contains("- Current directory: /definitely/not/a/repo"));
    assert!(ctx.contains("- Not inside a git repository"));
}

#[test]
fn safe_tail_start_returns_zero_when_short_history() {
    let records = vec![user(1), assistant_plain(2)];
    assert_eq!(safe_tail_start(&records, 10), 0);
}

#[test]
fn safe_tail_start_lands_on_user_record() {
    // Target keep = 2 → naive cutoff at index 3 (assistant plain).
    // That is already a safe boundary, so cutoff stays.
    let records = vec![
        user(1),
        assistant_plain(2),
        user(3),
        assistant_plain(4),
        user(5),
    ];
    assert_eq!(safe_tail_start(&records, 2), 3);
}

#[test]
fn safe_tail_start_advances_past_tool_record() {
    // Target keep = 2 → naive cutoff at index 3 (tool), which is
    // unsafe because it would orphan the tool from its assistant.
    // The safe cutoff is the next user record at index 4.
    let records = vec![
        user(1),
        assistant_plain(2),
        assistant_with_tool_call(3),
        tool(4),
        user(5),
    ];
    assert_eq!(safe_tail_start(&records, 2), 4);
}

#[test]
fn safe_tail_start_advances_past_assistant_with_tool_calls() {
    // Target keep = 2 → naive cutoff at index 2 (assistant with
    // tool_calls). Cutting there would drop the tool_call context
    // but keep the tool response, so it is unsafe. Move forward
    // to the next safe boundary at index 4 (user).
    let records = vec![
        user(1),
        user(2),
        assistant_with_tool_call(3),
        tool(4),
        user(5),
    ];
    assert_eq!(safe_tail_start(&records, 3), 4);
}

#[test]
fn safe_tail_start_bails_when_no_safe_boundary_in_tail() {
    // Tail is a single unresolved assistant→tool pair; no safe
    // boundary between naive index (1) and end. Bail with 0 so
    // we do not orphan tools this round.
    let records = vec![user(1), assistant_with_tool_call(2), tool(3)];
    assert_eq!(safe_tail_start(&records, 1), 0);
}

#[test]
fn is_safe_boundary_classifies_records_as_expected() {
    assert!(is_safe_boundary(&ChatMessage::User("u".to_string())));
    assert!(is_safe_boundary(&ChatMessage::assistant_text("a")));
    assert!(!is_safe_boundary(&ChatMessage::Assistant {
        content: String::new(),
        reasoning_content: None,
        tool_calls: vec![ToolCall {
            id: "x".to_string(),
            function_name: "read".to_string(),
            arguments_json: "{}".to_string(),
        }],
    }));
    assert!(!is_safe_boundary(&ChatMessage::Tool {
        tool_call_id: "x".to_string(),
        content: "{}".to_string(),
    }));
    assert!(!is_safe_boundary(&ChatMessage::System("s".to_string())));
}

fn big_user(ts: u64, len: usize) -> ChatMessageWithTs {
    ChatMessageWithTs {
        message: ChatMessage::User(format!("u{ts}:{}", "x".repeat(len))),
        ts,
    }
}

#[test]
fn truncate_prose_keeps_head_and_notes_dropped_chars() {
    let s = "abcdefghij".repeat(2000); // 20_000 chars
    let out = truncate_prose(&s, 1000);
    assert!(out.starts_with("abc"));
    assert!(out.contains("[truncated 19000 chars]"));
    assert!(out.chars().count() < 2000);
}

#[test]
fn render_summary_transcript_fits_all_within_budget() {
    let records = vec![user(1), assistant_plain(2), tool(3)];
    let out = render_summary_transcript(&records);
    assert!(!out.contains("[Note:"), "unexpected note: {out}");
    assert!(out.contains("user: u1"));
    assert!(out.contains("assistant: a2"));
    assert!(out.contains("[tool result:"));
}

#[test]
fn render_summary_transcript_drops_oldest_when_over_budget() {
    // Each record is over SUMMARY_RECORD_MAX_CHARS so each renders
    // to ~SUMMARY_RECORD_MAX_CHARS of prose + a truncation marker.
    // Fourteen such blocks exceed SUMMARY_MAX_CHARS, so the newest
    // ones are kept and the oldest are dropped (with a note).
    let mut records = Vec::new();
    for i in 1..=14 {
        records.push(big_user(i, SUMMARY_RECORD_MAX_CHARS + 100));
    }
    let out = render_summary_transcript(&records);
    assert!(out.contains("[Note:"), "expected a truncation note");
    assert!(out.contains("u14:"), "newest record should be kept");
    let kept_oldest_marker = records
        .len()
        .checked_sub(2)
        .map(|_| format!("u{}:", records.len().saturating_sub(2)))
        .unwrap_or_default();
    // The newest two are definitely kept; the absolute oldest is dropped.
    assert!(!out.contains("u1:"), "oldest record should be dropped");
    assert!(
        out.contains(&kept_oldest_marker),
        "a kept record ({kept_oldest_marker}) should be present"
    );
}

#[test]
fn render_summary_block_truncates_huge_tool_result() {
    let huge = "y".repeat(50_000);
    let rec = ChatMessageWithTs {
        message: ChatMessage::Tool {
            tool_call_id: "call_1".to_string(),
            content: huge,
        },
        ts: 1,
    };
    let out = render_summary_block(&rec);
    assert!(
        out.contains("[truncated"),
        "tool result not truncated: {}",
        out.len()
    );
    assert!(out.chars().count() < 1_000);
}

fn big_tool(ts: u64, len: usize) -> ChatMessageWithTs {
    ChatMessageWithTs {
        message: ChatMessage::Tool {
            tool_call_id: format!("call_{ts}"),
            content: "z".repeat(len),
        },
        ts,
    }
}

#[test]
fn compaction_cutoff_returns_none_when_too_short() {
    let records = vec![user(1), assistant_plain(2)];
    assert_eq!(compaction_cutoff(&records, 10, 1000), None);
}

#[test]
fn compaction_cutoff_returns_safe_tail_start_within_budget() {
    let records = vec![
        user(1),
        assistant_plain(2),
        user(3),
        assistant_plain(4),
        user(5),
    ];
    let keep = safe_tail_start(&records, 2);
    assert!(keep > 0);
    assert_eq!(compaction_cutoff(&records, 2, 100_000), Some(keep));
}

#[test]
fn compaction_cutoff_folds_huge_tail_to_the_end() {
    // A giant tool result sits at the very end, with no safe
    // boundary after it. The retained tail cannot be shrunk by
    // folding older records, so the cutoff walks to the end and
    // everything is folded into the summary.
    let records = vec![
        user(1),
        assistant_plain(2),
        assistant_with_tool_call(3),
        big_tool(4, 50_000),
    ];
    assert_eq!(compaction_cutoff(&records, 2, 100), Some(records.len()));
}

#[test]
fn compaction_cutoff_folds_middle_huge_record_normally() {
    // A huge tool result before a clearly safe recent tail does not
    // force fold-all: safe_tail_start already lands after it.
    let records = vec![
        user(1),
        assistant_with_tool_call(2),
        big_tool(3, 50_000),
        user(4),
        assistant_plain(5),
    ];
    let keep = safe_tail_start(&records, 2);
    assert!(keep > 0 && keep < records.len());
    assert_eq!(compaction_cutoff(&records, 2, 100), Some(keep));
}

fn start() -> Instant {
    Instant { nanos: 1_000 }
}

fn gate_config(
    turn_limit: usize,
    rate: Option<RateLimit>,
    session_max: Option<usize>,
) -> AgentConfig {
    AgentConfig {
        session_name: String::new(),
        model: String::new(),
        max_tokens: None,
        workspace_root: String::new(),
        system_prompt: None,
        show_reasoning: false,
        max_turns: 0,
        extra_read_paths_cli: Vec::new(),
        reference_paths: Vec::new(),
        turn_tool_call_limit: turn_limit,
        tool_call_rate: rate,
        session_tool_call_max: session_max,
        skill_name: None,
        authorization: Authorization::PerTool,
    }
}

#[test]
fn gate_turn_limit_admits_up_to_boundary_then_rejects() {
    let cfg = gate_config(3, None, None);
    let mut gate = ToolCallGate::new(&cfg);
    gate.begin_turn();
    let now = start();
    assert_eq!(gate.try_pass(now), GateDecision::Proceed);
    assert_eq!(gate.try_pass(now), GateDecision::Proceed);
    assert_eq!(gate.try_pass(now), GateDecision::Proceed);
    assert_eq!(gate.try_pass(now), GateDecision::TurnLimitExceeded);
}

#[test]
fn gate_turn_limit_resets_after_begin_turn() {
    let cfg = gate_config(2, None, None);
    let mut gate = ToolCallGate::new(&cfg);
    let now = start();
    gate.begin_turn();
    assert_eq!(gate.try_pass(now), GateDecision::Proceed);
    assert_eq!(gate.try_pass(now), GateDecision::Proceed);
    assert_eq!(gate.try_pass(now), GateDecision::TurnLimitExceeded);
    gate.begin_turn();
    assert_eq!(gate.try_pass(now), GateDecision::Proceed);
}

#[test]
fn gate_rate_admits_up_to_boundary_within_window_then_rejects() {
    let cfg = gate_config(
        100,
        Some(RateLimit {
            calls: 2,
            window: Duration::from_secs(10),
        }),
        None,
    );
    let mut gate = ToolCallGate::new(&cfg);
    gate.begin_turn();
    let t0 = start();
    assert_eq!(gate.try_pass(t0), GateDecision::Proceed);
    assert_eq!(gate.try_pass(t0), GateDecision::Proceed);
    assert_eq!(gate.try_pass(t0), GateDecision::RateLimitExceeded);
}

#[test]
fn gate_rate_window_slides_and_admits_again() {
    let cfg = gate_config(
        100,
        Some(RateLimit {
            calls: 2,
            window: Duration::from_secs(10),
        }),
        None,
    );
    let mut gate = ToolCallGate::new(&cfg);
    gate.begin_turn();
    let t0 = start();
    assert_eq!(gate.try_pass(t0), GateDecision::Proceed);
    assert_eq!(gate.try_pass(t0), GateDecision::Proceed);
    assert_eq!(gate.try_pass(t0), GateDecision::RateLimitExceeded);
    // Advance well past the window; the deque should drain.
    let t1 = t0.checked_add(Duration::from_secs(11)).expect("in range");
    assert_eq!(gate.try_pass(t1), GateDecision::Proceed);
}

#[test]
fn gate_rate_rejection_does_not_consume_window_slot() {
    // If a rejected call filled the deque, the next call after
    // window sliding would immediately be rejected again. Verify
    // rejected calls are not pushed.
    let cfg = gate_config(
        100,
        Some(RateLimit {
            calls: 1,
            window: Duration::from_secs(10),
        }),
        None,
    );
    let mut gate = ToolCallGate::new(&cfg);
    gate.begin_turn();
    let t0 = start();
    assert_eq!(gate.try_pass(t0), GateDecision::Proceed);
    // Multiple rejections at t0 must not affect anything.
    assert_eq!(gate.try_pass(t0), GateDecision::RateLimitExceeded);
    assert_eq!(gate.try_pass(t0), GateDecision::RateLimitExceeded);
    // After the window slides, exactly one admit is possible.
    let t1 = t0.checked_add(Duration::from_secs(11)).expect("in range");
    assert_eq!(gate.try_pass(t1), GateDecision::Proceed);
    assert_eq!(gate.try_pass(t1), GateDecision::RateLimitExceeded);
}

#[test]
fn gate_session_backstop_admits_up_to_max_then_exhausts() {
    let cfg = gate_config(100, None, Some(3));
    let mut gate = ToolCallGate::new(&cfg);
    let now = start();
    // Session count spans multiple turns.
    gate.begin_turn();
    assert_eq!(gate.try_pass(now), GateDecision::Proceed);
    assert_eq!(gate.try_pass(now), GateDecision::Proceed);
    gate.begin_turn();
    assert_eq!(gate.try_pass(now), GateDecision::Proceed);
    assert_eq!(gate.try_pass(now), GateDecision::SessionExhausted);
}

#[test]
fn gate_none_options_disable_the_check() {
    let cfg = gate_config(100, None, None);
    let mut gate = ToolCallGate::new(&cfg);
    gate.begin_turn();
    let now = start();
    for _ in 0..50 {
        assert_eq!(gate.try_pass(now), GateDecision::Proceed);
    }
}

#[test]
fn gate_rejection_does_not_consume_session_or_turn_budget() {
    // Turn cap rejects, but session_count and rate_deque should
    // not have advanced by the rejected call.
    let cfg = gate_config(
        1,
        Some(RateLimit {
            calls: 100,
            window: Duration::from_secs(10),
        }),
        Some(3),
    );
    let mut gate = ToolCallGate::new(&cfg);
    let now = start();
    gate.begin_turn();
    assert_eq!(gate.try_pass(now), GateDecision::Proceed);
    // Rejected by turn cap; must not count against session_max.
    assert_eq!(gate.try_pass(now), GateDecision::TurnLimitExceeded);
    assert_eq!(gate.try_pass(now), GateDecision::TurnLimitExceeded);
    gate.begin_turn();
    assert_eq!(gate.try_pass(now), GateDecision::Proceed);
    gate.begin_turn();
    assert_eq!(gate.try_pass(now), GateDecision::Proceed);
    // Now session_count == 3, backstop rejects (turn cap would
    // also apply on the 2nd of this turn but session runs first
    // per the order).
    gate.begin_turn();
    assert_eq!(gate.try_pass(now), GateDecision::SessionExhausted);
}

#[test]
fn small_references_go_into_the_prompt() {
    let r = resolve_reference("/w/a.md", b"hello reference\n").unwrap();
    assert_eq!(r.abs_path, "/w/a.md");
    assert_eq!(r.inline.as_deref(), Some("hello reference\n"));
}

#[test]
fn large_references_are_named_only() {
    let big = "x".repeat(REFERENCE_MAX_BYTES + 1);
    let r = resolve_reference("/w/big.md", big.as_bytes()).unwrap();
    assert!(r.inline.is_none());
    let most = "x".repeat(REFERENCE_MAX_BYTES);
    let r = resolve_reference("/w/most.md", most.as_bytes()).unwrap();
    assert_eq!(r.inline, Some(most));
}

#[test]
fn references_must_be_text() {
    let err = resolve_reference("/w/bin", b"ab\xff").unwrap_err();
    assert_eq!(
        err,
        "--reference /w/bin: not valid UTF-8: invalid utf-8 sequence of 1 bytes from index 2"
    );
}

fn call_result(content: &str, reasoning: Option<&str>) -> CallResult {
    CallResult {
        content: content.to_string(),
        reasoning_content: reasoning.map(str::to_string),
        tool_calls: Vec::new(),
        finish_reason: None,
        usage: None,
    }
}

#[test]
fn pick_summary_text_returns_content_when_present() {
    let r = call_result("hello summary", Some("thinking..."));
    assert_eq!(pick_summary_text(&r), Some("hello summary".to_string()));
}

#[test]
fn pick_summary_text_falls_back_to_reasoning_when_content_empty() {
    let r = call_result("   ", Some("actual answer"));
    assert_eq!(pick_summary_text(&r), Some("actual answer".to_string()));
}

#[test]
fn pick_summary_text_returns_none_when_reasoning_is_some_empty() {
    let r = call_result("", Some("   "));
    assert_eq!(pick_summary_text(&r), None);
}

#[test]
fn pick_summary_text_returns_none_when_reasoning_is_none() {
    let r = call_result("", None);
    assert_eq!(pick_summary_text(&r), None);
}

#[test]
fn abbreviate_args_strips_newlines_and_truncates() {
    let long = "{\"path\":\"src/agent_cli.rs\",\n\"pattern\":\"".repeat(40);
    let out = abbreviate_args(&long);
    assert!(!out.contains('\n'));
    assert!(out.chars().count() <= 91); // 90 + ellipsis
    assert!(out.ends_with('…'));
}

#[test]
fn abbreviate_args_handles_empty() {
    assert_eq!(abbreviate_args(""), "");
    assert_eq!(abbreviate_args("   "), "");
}

#[test]
fn render_records_prose_strips_raw_tool_format() {
    let records = vec![
        user(1),
        ChatMessageWithTs {
            message: ChatMessage::Assistant {
                content: "looking at the file".to_string(),
                reasoning_content: None,
                tool_calls: vec![ToolCall {
                    id: "call_1".to_string(),
                    function_name: "search".to_string(),
                    arguments_json: "{\"pattern\":\"foo\"}".to_string(),
                }],
            },
            ts: 2,
        },
        ChatMessageWithTs {
            message: ChatMessage::Tool {
                tool_call_id: "call_1".to_string(),
                content: "a file
"
                .repeat(300),
            },
            ts: 3,
        },
    ];
    let out = render_records_prose(&records);
    assert!(out.contains("user: u1"));
    assert!(out.contains("assistant: looking at the file"));
    assert!(out.contains("[tool call: search ({\"pattern\":\"foo\"})]"));
    assert!(out.contains("[tool result: a file"));
    // Raw JSON / agentic XML must not leak into the rendered prose.
    assert!(!out.contains("tool_calls"));
    assert!(!out.contains("<invoke"));
    assert!(!out.contains("function_name"));
    // Tool result is truncated (~200-char brief), not the full ~2100 chars.
    assert!(out.len() < 600);
    assert!(out.contains('…'));
}

#[test]
fn command_result_json_keeps_full_output_text() {
    let stdout = "line 1\nline 2\n".repeat(200);
    let stderr = "warning: something\n".repeat(50);
    let json = command_result_json(
        &stdout,
        &stderr,
        Some(1),
        "exited",
        Duration::from_millis(123),
    );
    assert!(json.contains("\"stdout\":\"line 1\\nline 2\\n"));
    assert!(json.contains("\"stderr\":\"warning: something\\n"));
    assert!(json.contains("\"exit_code\":1"));
    assert!(json.contains("\"termination_reason\":\"exited\""));
    assert!(json.contains("\"duration_ms\":123"));
}

#[test]
fn command_result_json_roundtrips_no_exit_code() {
    let json = command_result_json("out", "", None, "signaled", Duration::from_secs(0));
    assert!(json.contains("\"exit_code\":null"));
    assert!(json.contains("\"termination_reason\":\"signaled\""));
}

fn assistant_calls(ids: &[&str]) -> ChatMessage {
    ChatMessage::Assistant {
        content: String::new(),
        reasoning_content: None,
        tool_calls: ids
            .iter()
            .map(|id| ToolCall {
                id: id.to_string(),
                function_name: "command".to_string(),
                arguments_json: "{}".to_string(),
            })
            .collect(),
    }
}

fn tool_result(call_id: &str) -> ChatMessage {
    ChatMessage::Tool {
        tool_call_id: call_id.to_string(),
        content: "{}".to_string(),
    }
}

#[test]
fn repair_messages_inserts_reject_for_unanswered_sibling() {
    // assistant issues two calls; only the first is answered. The
    // second must get a synthetic reject inserted after the first
    // tool result, preserving order.
    let messages = vec![
        assistant_calls(&["call_00", "call_01"]),
        tool_result("call_00"),
    ];
    let (repaired, orphans) = repair_messages(&messages);
    assert_eq!(orphans.len(), 1);
    assert_eq!(orphans[0].call_id, "call_01");
    assert!(orphans[0].content.contains("unanswered_tool_call"));
    // Two assistants? No: assistant + two tool messages.
    assert_eq!(repaired.len(), 3);
    assert!(matches!(&repaired[0], ChatMessage::Assistant { .. }));
    match &repaired[1] {
        ChatMessage::Tool { tool_call_id, .. } => assert_eq!(tool_call_id, "call_00"),
        other => panic!("expected tool call_00, got {other:?}"),
    }
    match &repaired[2] {
        ChatMessage::Tool {
            tool_call_id,
            content,
        } => {
            assert_eq!(tool_call_id, "call_01");
            assert!(content.contains("unanswered_tool_call"));
        }
        other => panic!("expected synthetic tool call_01, got {other:?}"),
    }
}

#[test]
fn repair_messages_leaves_complete_transcript_untouched() {
    let messages = vec![
        assistant_calls(&["call_00", "call_01"]),
        tool_result("call_00"),
        tool_result("call_01"),
    ];
    let (repaired, orphans) = repair_messages(&messages);
    assert!(orphans.is_empty());
    assert_eq!(repaired, messages);
}

#[test]
fn repair_messages_handles_multiple_unanswered_calls() {
    // No tool results at all: every call is answered by a synthetic
    // reject, all inserted after the assistant message.
    let messages = vec![assistant_calls(&["call_00", "call_01", "call_02"])];
    let (repaired, orphans) = repair_messages(&messages);
    assert_eq!(orphans.len(), 3);
    assert_eq!(repaired.len(), 4);
    for (idx, id) in ["call_00", "call_01", "call_02"].iter().enumerate() {
        match &repaired[idx + 1] {
            ChatMessage::Tool { tool_call_id, .. } => assert_eq!(tool_call_id, id),
            other => panic!("expected tool {id}, got {other:?}"),
        }
    }
}

#[test]
fn repair_messages_places_synthetic_before_next_user() {
    // The synthetic reject must be inserted immediately after the
    // assistant's tool results, before a subsequent user message.
    let messages = vec![
        assistant_calls(&["call_00", "call_01"]),
        tool_result("call_00"),
        ChatMessage::User("continue".to_string()),
    ];
    let (repaired, orphans) = repair_messages(&messages);
    assert_eq!(orphans.len(), 1);
    assert_eq!(repaired.len(), 4);
    assert!(matches!(&repaired[2], ChatMessage::Tool { .. }));
    assert!(matches!(&repaired[3], ChatMessage::User(_)));
}

#[test]
fn repair_messages_skips_assistant_without_tool_calls() {
    let messages = vec![
        ChatMessage::assistant_text("intro"),
        assistant_calls(&["call_00"]),
        tool_result("call_00"),
    ];
    let (repaired, orphans) = repair_messages(&messages);
    assert!(orphans.is_empty());
    assert_eq!(repaired, messages);
}

#[test]
fn repair_messages_moves_misplaced_tool_before_user() {
    // The bug this fix addresses: a synthetic tool result was
    // persisted *after* a user turn. It must be moved back to
    // immediately follow its assistant so the assistant -> tool
    // continuity holds, with the user message after the tool
    // results, and no extra orphan synthetic is generated.
    let messages = vec![
        assistant_calls(&["call_00", "call_01"]),
        tool_result("call_00"),
        ChatMessage::User("tudukete".to_string()),
        tool_result("call_01"),
    ];
    let (repaired, orphans) = repair_messages(&messages);
    assert!(orphans.is_empty());
    assert_eq!(repaired.len(), 4);
    assert!(matches!(&repaired[0], ChatMessage::Assistant { .. }));
    match &repaired[1] {
        ChatMessage::Tool { tool_call_id, .. } => assert_eq!(tool_call_id, "call_00"),
        other => panic!("expected tool call_00, got {other:?}"),
    }
    match &repaired[2] {
        ChatMessage::Tool { tool_call_id, .. } => assert_eq!(tool_call_id, "call_01"),
        other => panic!("expected tool call_01, got {other:?}"),
    }
    assert!(matches!(&repaired[3], ChatMessage::User(_)));
}

#[test]
fn repair_messages_drops_duplicate_tool_result() {
    // A stray / duplicate tool message for an already-answered call
    // is dropped rather than re-emitted.
    let messages = vec![
        assistant_calls(&["call_00"]),
        tool_result("call_00"),
        tool_result("call_00"),
    ];
    let (repaired, orphans) = repair_messages(&messages);
    assert!(orphans.is_empty());
    assert_eq!(repaired.len(), 2);
    assert!(matches!(&repaired[0], ChatMessage::Assistant { .. }));
    assert!(matches!(&repaired[1], ChatMessage::Tool { .. }));
}

#[test]
fn status_line_render_includes_session_and_ctx() {
    let line = render_agent_status_line("deepseek-v4-flash", "main", 20736);
    assert_eq!(
        line,
        "[agent] model=deepseek-v4-flash session=main ctx=20736"
    );
}

#[test]
fn status_line_uses_passed_ctx_as_current_size() {
    let line = render_agent_status_line("m", "s", 1000);
    assert!(line.contains("ctx=1000"));
    assert!(line.contains("model=m"));
    assert!(line.contains("session=s"));
}

#[test]
fn repair_messages_drops_answers_to_no_call() {
    let hi = ChatMessage::User("hi".to_string());
    let (repaired, orphans) = repair_messages(&vec![hi.clone(), tool_result("ghost")]);
    assert_eq!(repaired, vec![hi]);
    assert!(orphans.is_empty());
}

#[test]
fn repair_messages_takes_the_first_answer() {
    let first = ChatMessage::Tool {
        tool_call_id: "a".to_string(),
        content: "one".to_string(),
    };
    let second = ChatMessage::Tool {
        tool_call_id: "a".to_string(),
        content: "two".to_string(),
    };
    let messages = vec![assistant_calls(&["a", "b", "c"]), first.clone(), second];
    let (repaired, orphans) = repair_messages(&messages);
    assert_eq!(repaired.len(), 4);
    assert_eq!(repaired[1], first);
    let cancelled: Vec<&str> = orphans.iter().map(|o| o.call_id.as_str()).collect();
    assert_eq!(cancelled, vec!["b", "c"]);
}

#[test]
fn gate_counts_only_calls_that_went_through() {
    let cfg = gate_config(
        3,
        Some(RateLimit {
            calls: 2,
            window: Duration::from_secs(10),
        }),
        Some(4),
    );
    let mut gate = ToolCallGate::new(&cfg);
    gate.begin_turn();
    let at = |s: i128| Instant { nanos: s * 1_000_000_000 };
    assert_eq!(gate.try_pass(at(0)), GateDecision::Proceed);
    assert_eq!(gate.try_pass(at(1)), GateDecision::Proceed);
    assert_eq!(gate.try_pass(at(2)), GateDecision::RateLimitExceeded);
    // The call at the edge of the window still counts.
    assert_eq!(gate.try_pass(at(10)), GateDecision::RateLimitExceeded);
    assert_eq!(gate.try_pass(at(11)), GateDecision::Proceed);
    assert_eq!(gate.try_pass(at(30)), GateDecision::TurnLimitExceeded);
    gate.begin_turn();
    assert_eq!(gate.try_pass(at(31)), GateDecision::Proceed);
    assert_eq!(gate.try_pass(at(60)), GateDecision::SessionExhausted);
}
