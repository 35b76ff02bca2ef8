//! The agent loop: what it does about each call, and how it goes on later.
use attini::agent_cli::drive::resume::{closing_records, ending, load_pending_or_err};
use attini::agent_cli::drive::{
    build_tool_defs, classify, AgentLoop, Driven, Effect, Next, PatchReply, SkillReply, ToolKind,
};
use attini::agent_cli::{AgentConfig, RateLimit};
use attini::curl::CallResult;
use attini::permissions::{load, LoadedRules};
use attini::sansio::agent::{
    CommandError, PatchError, PatchPreview, PreviewHash, ToolExecutionError, ToolOutcome,
};
use attini::sansio::deepseek::{ChatMessage, ToolCall, Usage};
use attini::sansio::permissions::Authorization;
use attini::session::{
    ApprovalDecision, AutoDecidedBy, InvocationEndReason, Pending, PendingToolKind, SessionRecord,
};
use attini::time::{Duration, Instant};

const NOW: Instant = Instant { nanos: 0 };

fn config() -> AgentConfig {
    AgentConfig {
        session_name: "s".to_string(),
        model: "m".to_string(),
        max_tokens: None,
        workspace_root: "/w".to_string(),
        system_prompt: None,
        show_reasoning: false,
        max_turns: 2,
        extra_read_paths_cli: vec![],
        reference_paths: vec![],
        turn_tool_call_limit: 3,
        tool_call_rate: None,
        session_tool_call_max: None,
        skill_name: None,
        authorization: Authorization::PerTool,
    }
}

fn rules(workspace: &str) -> LoadedRules {
    load(workspace, "ws", "", "sess").0
}

fn call(id: &str, name: &str, args: &str) -> ToolCall {
    ToolCall {
        id: id.to_string(),
        function_name: name.to_string(),
        arguments_json: args.to_string(),
    }
}

fn reply(content: &str, tool_calls: Vec<ToolCall>) -> CallResult {
    CallResult {
        content: content.to_string(),
        reasoning_content: None,
        tool_calls,
        finish_reason: None,
        usage: None,
    }
}

fn fresh() -> AgentLoop {
    AgentLoop::new(&config(), rules(""), vec![ChatMessage::User("hi".to_string())])
}

fn tool_message(id: &str, content: &str) -> ChatMessage {
    ChatMessage::Tool {
        tool_call_id: id.to_string(),
        content: content.to_string(),
    }
}

fn tool_record(ts: u64, id: &str, content: &str) -> Effect {
    Effect::Append(SessionRecord::Tool {
        ts,
        call_id: id.to_string(),
        content: content.to_string(),
    })
}

fn note(text: &str) -> Effect {
    Effect::Note(text.to_string())
}

/// Starts a turn in which the model makes those calls.
fn with_calls(agent: &mut AgentLoop, calls: Vec<ToolCall>) {
    let (effects, next) = agent.begin_turn();
    assert!(effects.is_empty());
    assert!(matches!(next, Next::CallModel(_)));
    let (_, next) = agent.take_reply(reply("", calls), 5);
    assert_eq!(next, Next::Call);
}

#[test]
fn requests_carry_the_conversation() {
    let mut agent = fresh();
    let (effects, next) = agent.begin_turn();
    assert!(effects.is_empty());
    match next {
        Next::CallModel(request) => {
            assert_eq!(request.model, "m");
            assert_eq!(&request.messages, agent.messages());
            let names: Vec<&str> = request.tools.iter().map(|d| d.name.as_str()).collect();
            assert_eq!(names, ["list", "read", "search", "patch", "command", "skill_load"]);
            assert_eq!(request.tools, build_tool_defs());
        }
        other => panic!("{other:?}"),
    }
}

#[test]
fn plain_replies_end_the_loop() {
    let mut agent = fresh();
    agent.begin_turn();
    let usage = Usage {
        prompt_tokens: Some(7),
        completion_tokens: Some(3),
        total_tokens: Some(10),
        prompt_cache_hit_tokens: None,
        prompt_cache_miss_tokens: Some(7),
    };
    let mut said = reply("done", vec![]);
    said.usage = Some(usage);
    let (effects, next) = agent.take_reply(said, 9);
    assert_eq!(next, Next::Done(Driven::Completed));
    assert_eq!(
        effects,
        vec![
            Effect::Append(SessionRecord::Assistant {
                ts: 9,
                content: "done".to_string(),
                reasoning: None,
                tool_calls: vec![],
            }),
            Effect::Append(SessionRecord::TokenUsage { ts: 9, body: usage }),
        ]
    );
    let counters = agent.counters();
    assert_eq!(counters.turns, 1);
    assert_eq!(counters.prompt_tokens_last, 7);
    assert_eq!(counters.completion_tokens_total, 3);
    assert_eq!(agent.messages().last(), Some(&ChatMessage::assistant_text("done")));
}

#[test]
fn turns_are_bounded() {
    let mut agent = fresh();
    for _ in 0..2 {
        with_calls(&mut agent, vec![call("c", "fly", "{}")]);
        agent.next_call(6, NOW);
        let (effects, next) = agent.next_call(6, NOW);
        assert!(effects.is_empty());
        assert_eq!(next, Next::Turn);
    }
    let (effects, next) = agent.begin_turn();
    assert!(effects.is_empty());
    assert_eq!(next, Next::Fail("agent loop exceeded max_turns=2".to_string()));
}

#[test]
fn tools_are_told_apart() {
    assert_eq!(classify("list"), ToolKind::ReadOnly);
    assert_eq!(classify("read"), ToolKind::ReadOnly);
    assert_eq!(classify("search"), ToolKind::ReadOnly);
    assert_eq!(classify("patch"), ToolKind::Patch);
    assert_eq!(classify("command"), ToolKind::Command);
    assert_eq!(classify("skill_load"), ToolKind::Skill);
    assert_eq!(classify("Read"), ToolKind::Unknown);
}

#[test]
fn reading_tools_run_and_are_answered() {
    let mut agent = fresh();
    with_calls(
        &mut agent,
        vec![call("c1", "read", r#"{"path":"a.rs"}"#), call("c2", "read", "{")],
    );
    let (effects, next) = agent.next_call(6, NOW);
    assert!(effects.is_empty());
    let (id, tool) = match next {
        Next::ReadOnly { call_id, tool } => (call_id, tool),
        other => panic!("{other:?}"),
    };
    assert_eq!(id, "c1");
    let (effects, next) =
        agent.read_only_done(&id, &tool, ToolOutcome::Success("text".to_string()), 7);
    assert_eq!(next, Next::Call);
    assert_eq!(effects, vec![note("[read \"a.rs\"] ok"), tool_record(7, "c1", "text")]);
    assert_eq!(agent.messages().last(), Some(&tool_message("c1", "text")));

    let (effects, next) = agent.next_call(8, NOW);
    assert_eq!(next, Next::Call);
    match &effects[0] {
        Effect::Note(line) => assert!(line.starts_with("[read] parse err: "), "{line}"),
        other => panic!("{other:?}"),
    }
    assert_eq!(agent.counters().tool_errors, 1);
    assert_eq!(agent.counters().tool_calls_by_kind.read, 2);

    let failed = ToolOutcome::Failure(ToolExecutionError::NotUtf8);
    let (effects, _) = agent.read_only_done("c3", &tool, failed, 9);
    match &effects[0] {
        Effect::Note(line) => assert!(line.starts_with("[read \"a.rs\"] err: "), "{line}"),
        other => panic!("{other:?}"),
    }
    assert_eq!(agent.counters().tool_errors, 2);
}

#[test]
fn unknown_tools_are_refused() {
    let mut agent = fresh();
    with_calls(&mut agent, vec![call("c1", "fly", "{}")]);
    let (effects, next) = agent.next_call(6, NOW);
    assert_eq!(next, Next::Call);
    let content = r#"{"error":"unknown_tool","message":"no such tool: fly"}"#;
    assert_eq!(effects, vec![note("[unknown tool] fly"), tool_record(6, "c1", content)]);
    assert_eq!(agent.counters().tool_calls_by_kind.unknown, 1);
    assert_eq!(agent.counters().tool_errors, 1);
}

#[test]
fn rules_decide_about_commands() {
    let text = concat(&[
        r#"{"type":"command","allow":true,"args_prefix":["ls"]}"#,
        r#"{"type":"command","allow":false,"args_prefix":["rm"]}"#,
    ]);
    let mut agent = AgentLoop::new(&config(), rules(&text), vec![]);
    with_calls(
        &mut agent,
        vec![
            call("c1", "command", r#"{"argv":["ls","a b"]}"#),
            call("c2", "command", r#"{"argv":["rm","x"]}"#),
        ],
    );
    let (effects, next) = agent.next_call(6, NOW);
    assert_eq!(effects[0], note("[command] auto-approve via workspace rule 'ls': ls 'a b'"));
    assert_eq!(
        effects[1],
        Effect::Append(SessionRecord::ToolApproval {
            ts: 6,
            call_id: "c1".to_string(),
            decision: ApprovalDecision::Approve,
            auto_decided_by: Some(AutoDecidedBy {
                scope: "workspace".to_string(),
                argv_prefix: vec!["ls".to_string()],
                reason: "rule".to_string(),
            }),
        })
    );
    match next {
        Next::RunCommand { call_id, command } => {
            assert_eq!(call_id, "c1");
            assert_eq!(command.argv, vec!["ls", "a b"]);
        }
        other => panic!("{other:?}"),
    }
    let (effects, next) = agent.command_done("c1", Ok("out".to_string()), 7);
    assert_eq!(next, Next::Call);
    assert_eq!(effects, vec![tool_record(7, "c1", "out")]);

    let (effects, next) = agent.next_call(8, NOW);
    assert_eq!(next, Next::Call);
    assert_eq!(effects[0], note("[command] auto-deny via workspace rule 'rm': rm x"));
    let content = r#"{"error":"denied_by_rule","message":"auto-denied by workspace rule argv_prefix [\"rm\"]"}"#;
    assert_eq!(effects[2], tool_record(8, "c2", content));
    assert_eq!(agent.counters().tool_errors, 1);

    let failed = CommandError::SpawnFailed { message: "gone".to_string() };
    agent.command_done("c9", Err(failed), 9);
    assert_eq!(agent.counters().tool_errors, 2);
}

fn concat(lines: &[&str]) -> String {
    lines.iter().map(|l| format!("{l}\n")).collect()
}

#[test]
fn nothing_runs_once_a_call_waits() {
    let text = r#"{"type":"command","allow":true,"args_prefix":["ls"]}"#;
    let mut agent = AgentLoop::new(&config(), rules(text), vec![]);
    with_calls(
        &mut agent,
        vec![
            call("c1", "command", r#"{"argv":["make"]}"#),
            call("c2", "command", r#"{"argv":["ls"]}"#),
            call("c3", "command", r#"{"argv":["cp"]}"#),
        ],
    );
    let (effects, next) = agent.next_call(6, NOW);
    assert_eq!(next, Next::Call);
    assert_eq!(effects[0], note("[command] approval required"));
    let (effects, next) = agent.next_call(7, NOW);
    assert_eq!((effects, next), (vec![], Next::Call));
    agent.next_call(8, NOW);
    let (effects, next) = agent.next_call(9, NOW);
    assert_eq!(next, Next::Done(Driven::AwaitingApproval));
    match &effects[..] {
        [Effect::SavePending(waiting)] => {
            let ids: Vec<&str> = waiting.iter().map(|p| p.call_id.as_str()).collect();
            assert_eq!(ids, ["c1", "c3"]);
            assert_eq!(waiting[0].tool_kind, PendingToolKind::Command);
            assert_eq!(waiting[0].ts, 6);
        }
        other => panic!("{other:?}"),
    }
    assert_eq!(agent.messages().len(), 1, "no call was answered");
}

fn patch_reply(auto_approve: bool) -> PatchReply {
    PatchReply {
        hashes: vec![PreviewHash { path: "a".to_string(), sha256: None }],
        preview: PatchPreview {
            target_paths: vec!["a".to_string()],
            added_lines: 1,
            removed_lines: 0,
            edit_count: 1,
        },
        auto_approve,
    }
}

const PATCH: &str = r#"{"edits":[{"kind":"add","path":"a","content":"x"}]}"#;

#[test]
fn patches_are_previewed_first() {
    let mut agent = fresh();
    with_calls(
        &mut agent,
        vec![call("c1", "patch", PATCH), call("c2", "patch", PATCH), call("c3", "patch", PATCH)],
    );
    let previewed = |next| match next {
        Next::PreviewPatch { call, invocation } => (call, invocation),
        other => panic!("{other:?}"),
    };
    let (call1, edits) = previewed(agent.next_call(6, NOW).1);
    let (effects, next) = agent.patch_previewed(&call1, edits, Ok(patch_reply(true)), 6);
    assert!(effects.is_empty());
    match next {
        Next::ApplyPatch { call_id, hashes, edits } => {
            assert_eq!(call_id, "c1");
            assert_eq!(hashes, patch_reply(true).hashes);
            assert_eq!(edits.edits.len(), 1);
        }
        other => panic!("{other:?}"),
    }
    let (effects, _) = agent.patch_applied("c1", Ok(vec!["a".to_string()]), 7);
    assert_eq!(effects[0], note("[patch] auto-approved: 1 file(s) (git-tracked)"));

    let (call2, edits) = previewed(agent.next_call(8, NOW).1);
    let gone = PatchError::NoMatch { path: "a".to_string() };
    let (effects, next) = agent.patch_previewed(&call2, edits, Err(gone), 8);
    assert_eq!(next, Next::Call);
    assert_eq!(effects[0], note("[patch] preview err: NoMatch { path: \"a\" }"));

    let (call3, edits) = previewed(agent.next_call(9, NOW).1);
    let (effects, next) = agent.patch_previewed(&call3, edits, Ok(patch_reply(false)), 9);
    assert_eq!(next, Next::Call);
    assert_eq!(effects[0], note("[patch] approval required"));
    let (_, next) = agent.next_call(9, NOW);
    assert_eq!(next, Next::Done(Driven::AwaitingApproval));
}

#[test]
fn skills_are_loaded() {
    let mut agent = fresh();
    with_calls(&mut agent, vec![call("c1", "skill_load", r#"{"name":"k"}"#)]);
    match agent.next_call(6, NOW).1 {
        Next::LoadSkill { call_id, name } => assert_eq!((call_id.as_str(), name.as_str()), ("c1", "k")),
        other => panic!("{other:?}"),
    }
    let (effects, _) = agent.skill_done("c1", "k", SkillReply::Body("# K".to_string()), 7);
    assert_eq!(effects, vec![note("[skill_load] k"), tool_record(7, "c1", "# K")]);
    let (effects, _) = agent.skill_done("c2", "q", SkillReply::NotFound, 8);
    let content = r#"{"error":"skill_not_found","message":"no SKILL.md found for skill \"q\""}"#;
    assert_eq!(effects, vec![note("[skill_load] not found: q"), tool_record(8, "c2", content)]);
    let broken = SkillReply::Failed { code: "io".to_string(), message: "no".to_string() };
    let (effects, _) = agent.skill_done("c3", "q", broken, 9);
    assert_eq!(effects[0], note("[skill_load] q: no"));
    assert_eq!(agent.counters().tool_errors, 2);
}

#[test]
fn caps_are_told_to_the_model() {
    let mut limits = config();
    limits.turn_tool_call_limit = 1;
    let mut agent = AgentLoop::new(&limits, rules(""), vec![]);
    with_calls(&mut agent, vec![call("c1", "fly", ""), call("c2", "fly", "")]);
    agent.next_call(6, NOW);
    let (effects, next) = agent.next_call(6, NOW);
    assert_eq!(next, Next::Call);
    assert_eq!(effects[0], note("[cap] turn_tool_call_limit=1 exceeded"));
    let content = r#"{"error":"turn_tool_call_limit_exceeded","message":"turn_tool_call_limit=1 exceeded in this turn"}"#;
    assert_eq!(effects[1], tool_record(6, "c2", content));

    let mut limits = config();
    limits.tool_call_rate = Some(RateLimit { calls: 1, window: Duration::from_secs(60) });
    let mut agent = AgentLoop::new(&limits, rules(""), vec![]);
    with_calls(&mut agent, vec![call("c1", "fly", ""), call("c2", "fly", "")]);
    agent.next_call(6, NOW);
    let (effects, _) = agent.next_call(6, NOW);
    assert_eq!(effects[0], note("[cap] tool_call_rate=1/60s exceeded"));

    let mut limits = config();
    limits.session_tool_call_max = Some(1);
    let mut agent = AgentLoop::new(&limits, rules(""), vec![]);
    with_calls(&mut agent, vec![call("c1", "fly", ""), call("c2", "fly", "")]);
    agent.next_call(6, NOW);
    let (effects, next) = agent.next_call(6, NOW);
    assert_eq!(next, Next::Done(Driven::SessionToolCallExhausted));
    assert_eq!(
        effects,
        vec![note("[cap] session_tool_call_max=1 exhausted; ending invocation")]
    );
}

fn pending(id: &str, kind: PendingToolKind, args: &str) -> Pending {
    Pending {
        ts: 1,
        call_id: id.to_string(),
        tool_kind: kind,
        function_name: "f".to_string(),
        arguments_json: args.to_string(),
        preview: String::new(),
    }
}

fn decision(ts: u64, id: &str, decision: ApprovalDecision) -> Effect {
    Effect::Append(SessionRecord::ToolApproval {
        ts,
        call_id: id.to_string(),
        decision,
        auto_decided_by: None,
    })
}

#[test]
fn waiting_calls_are_rejected_or_approved() {
    let mut agent = fresh();
    let waiting = pending("c1", PendingToolKind::Command, r#"{"argv":["make"]}"#);
    let effects = agent.reject(&waiting, 5);
    let rejected = r#"{"error":"rejected","message":"user rejected this tool call"}"#;
    assert_eq!(
        effects,
        vec![decision(5, "c1", ApprovalDecision::Reject), tool_record(5, "c1", rejected)]
    );
    assert_eq!(agent.messages().last(), Some(&tool_message("c1", rejected)));

    let (effects, next) = agent.approve(&waiting, 6);
    assert_eq!(effects, vec![decision(6, "c1", ApprovalDecision::Approve)]);
    match next {
        Next::RunCommand { call_id, command } => {
            assert_eq!(call_id, "c1");
            assert_eq!(command.argv, vec!["make"]);
        }
        other => panic!("{other:?}"),
    }
    let (effects, next) = agent.approved_ran("c1", Ok("out".to_string()), 7);
    assert_eq!((effects, next), (vec![tool_record(7, "c1", "out")], Next::Call));

    let broken = pending("c1", PendingToolKind::Command, "{");
    let (_, next) = agent.approve(&broken, 6);
    match next {
        Next::Fail(message) => assert!(message.starts_with("command args: "), "{message}"),
        other => panic!("{other:?}"),
    }

    let waiting = pending("c2", PendingToolKind::Patch, PATCH);
    let (_, next) = agent.approve(&waiting, 8);
    let edits = match next {
        Next::PreviewPatch { call, invocation } => {
            assert_eq!(call.id, "c2");
            invocation
        }
        other => panic!("{other:?}"),
    };
    let hashes = vec![PreviewHash { path: "a".to_string(), sha256: Some([7; 32]) }];
    let (effects, next) = agent.approved_previewed("c2", edits, Ok(hashes), 9);
    assert!(effects.is_empty());
    match next {
        Next::ApplyPatch { call_id, hashes, .. } => {
            assert_eq!(call_id, "c2");
            assert_eq!(hashes[0].sha256, Some([7; 32]));
        }
        other => panic!("{other:?}"),
    }
    let (effects, next) = agent.approved_applied("c2", Err(PatchError::Rejected), 10);
    assert_eq!(next, Next::Call);
    let content = r#"{"error":"patch_apply","message":"Rejected"}"#;
    assert_eq!(effects, vec![tool_record(10, "c2", content)]);
}

#[test]
fn prompts_follow_answered_calls() {
    let messages = vec![
        ChatMessage::User("hi".to_string()),
        ChatMessage::Assistant {
            content: String::new(),
            reasoning_content: None,
            tool_calls: vec![call("c1", "command", "{}")],
        },
    ];
    let mut agent = AgentLoop::new(&config(), rules(""), messages);
    let effects = agent.prompt("go on".to_string(), &vec!["c1".to_string()], 5);
    assert_eq!(effects[0], Effect::ClearPending);
    assert_eq!(
        effects.last(),
        Some(&Effect::Append(SessionRecord::User { ts: 5, text: "go on".to_string() }))
    );
    let messages = agent.messages();
    assert_eq!(messages.len(), 4);
    assert!(matches!(&messages[2], ChatMessage::Tool { tool_call_id, .. } if tool_call_id == "c1"));
    assert_eq!(messages[3], ChatMessage::User("go on".to_string()));
    let again = agent.repair(&vec![], 6);
    assert!(again.is_empty(), "nothing is left to repair");
}

#[test]
fn invocations_end_in_one_of_four_ways() {
    assert_eq!(ending(Some(Driven::Completed)).0, InvocationEndReason::Completed);
    assert_eq!(
        ending(Some(Driven::AwaitingApproval)).0,
        InvocationEndReason::AwaitingApproval
    );
    assert_eq!(
        ending(Some(Driven::SessionToolCallExhausted)).0,
        InvocationEndReason::SessionToolCallExhausted
    );
    assert_eq!(ending(None).0, InvocationEndReason::Error);
    let codes: Vec<u8> = [
        Some(Driven::Completed),
        Some(Driven::AwaitingApproval),
        Some(Driven::SessionToolCallExhausted),
        None,
    ]
    .into_iter()
    .map(|o| ending(o).1)
    .collect();
    assert_eq!(codes[0], 0);
    assert!(codes[1..].iter().all(|c| *c != 0));

    let counters = fresh().counters();
    let records = closing_records(&counters, 100, 350, InvocationEndReason::Completed);
    match &records[0] {
        SessionRecord::MetricsSnapshot { ts, entries } => {
            assert_eq!(*ts, 350);
            assert!(entries.contains(&("duration_ms".to_string(), 250)));
            assert_eq!(entries.len(), 16);
        }
        other => panic!("{other:?}"),
    }
    assert_eq!(
        records[1],
        SessionRecord::InvocationEnd { ts: 350, reason: InvocationEndReason::Completed }
    );
}

#[test]
fn there_must_be_something_to_approve() {
    assert!(load_pending_or_err(None).is_err());
    let waiting = vec![pending("c", PendingToolKind::Patch, "{}")];
    assert_eq!(load_pending_or_err(Some(waiting)).unwrap().len(), 1);
}

#[test]
fn requests_carry_the_token_limit() {
    let mut limits = config();
    limits.max_tokens = Some(512);
    let mut agent =
        AgentLoop::new(&limits, rules(""), vec![ChatMessage::User("hi".to_string())]);
    match agent.begin_turn().1 {
        Next::CallModel(request) => assert_eq!(request.max_tokens, Some(512)),
        other => panic!("{other:?}"),
    }
}
