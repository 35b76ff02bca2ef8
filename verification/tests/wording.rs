//! How results and errors are worded.
use attini::agent_cli::compaction::{should_compact, COMPACTION_TRIGGER_TOKENS};
use attini::agent_cli::prompt::{
    build_initial_messages, distinct_roots, git_answer, read_candidates, render_available_skills,
    render_scratchpad_note, GitFacts, InitialContext, ResolvedReference, SkillEntry,
};
use attini::agent_cli::summary::{
    ask_request, count_words, plan_compaction, summary_note, summary_or_err, summary_record,
    trigger_note,
};
use attini::agent_cli::wording::{
    finished_command_json, patch_result_json, render_command_preview, render_patch_preview_text,
    render_suggested_rule, short_err, summarize_read_only, tool_error_json, tool_error_json_from,
};
use attini::agent_cli::Counters;
use attini::curl::CallResult;
use attini::memories::load;
use attini::sansio::agent::debug::{debug_command_error, debug_patch_error, debug_tool_error};
use attini::sansio::agent::{
    CommandError, PatchError, PatchPreview, ReadOnlyTool, ToolExecutionError,
};
use attini::sansio::deepseek::{ChatMessage, Usage};
use attini::session::{ChatMessageWithTs, SessionRecord};
use attini::shell::{shell_escape_argv, shell_single_quote};
use attini::time::Duration;

fn p(path: &str) -> String {
    path.to_string()
}

fn patch_errors() -> Vec<PatchError> {
    vec![
        PatchError::Rejected,
        PatchError::Conflict { path: p("a") },
        PatchError::NoMatch { path: p("a\"b") },
        PatchError::AmbiguousMatch { path: p("a"), match_count: 12 },
        PatchError::AddOnExistingFile { path: p("a") },
        PatchError::ParentDirMissing { path: p("a") },
        PatchError::UpdateOnMissingFile { path: p("a") },
        PatchError::OutsideWorkspace { path: p("../a\n") },
        PatchError::ExcludedPath { path: p("a"), reason: p("r\t") },
        PatchError::UntrackedTarget { path: p("a") },
        PatchError::IgnoredParent { path: p("a") },
        PatchError::NotInGitRepo { path: p("a") },
        PatchError::TooManyEdits { count: 99 },
        PatchError::MultipleEditsSamePath { path: p("a") },
        PatchError::FileTooLarge { path: p("a") },
        PatchError::IoError { path: p("a"), message: p("\u{e9}\u{7}") },
        PatchError::CrossDeviceRename { path: p("a") },
    ]
}

fn command_errors() -> Vec<CommandError> {
    vec![
        CommandError::Rejected,
        CommandError::SpawnFailed { message: p("no such file") },
        CommandError::EmptyArgv,
    ]
}

fn tool_errors() -> Vec<ToolExecutionError> {
    let mut all = vec![
        ToolExecutionError::OutsideWorkspace,
        ToolExecutionError::NotUtf8,
        ToolExecutionError::Binary,
        ToolExecutionError::IoError(p("io")),
        ToolExecutionError::ArgumentsParseFailed(p("args")),
        ToolExecutionError::ArgumentsTooLarge,
        ToolExecutionError::UnknownTool,
        ToolExecutionError::TurnToolCallLimitExceeded,
    ];
    all.extend(patch_errors().into_iter().map(ToolExecutionError::Patch));
    all.extend(command_errors().into_iter().map(ToolExecutionError::Command));
    all
}

#[test]
fn debug_texts_are_those_of_the_types() {
    for e in patch_errors() {
        assert_eq!(debug_patch_error(&e), format!("{e:?}"));
    }
    for e in command_errors() {
        assert_eq!(debug_command_error(&e), format!("{e:?}"));
    }
    for e in tool_errors() {
        assert_eq!(debug_tool_error(&e), format!("{e:?}"));
    }
}

#[test]
fn each_error_has_a_code() {
    let mut codes: Vec<String> = patch_errors()
        .iter()
        .map(|e| e.to_code_and_message().0.to_string())
        .collect();
    let n = codes.len();
    codes.sort();
    codes.dedup();
    assert_eq!(codes.len(), n, "no two patch errors share a code");
    for e in tool_errors() {
        let text = tool_error_json_from(&e);
        assert!(text.starts_with("{\"error\":\""), "{text}");
        assert!(!short_err(&e).is_empty());
    }
}

#[test]
fn results_are_json() {
    assert_eq!(
        tool_error_json("c\"", "m\n"),
        r#"{"error":"c\"","message":"m\n"}"#
    );
    let text = patch_result_json(&vec![p("a"), p("b\"")]);
    assert!(text.contains(r#"["a","b\""]"#), "{text}");
    let done = finished_command_json("o", "e", Some(0), Duration::from_millis(1500));
    assert!(done.contains("\"exit_code\":0"), "{done}");
    let killed = finished_command_json("o", "e", None, Duration::from_millis(1500));
    assert!(killed.contains("\"exit_code\":null"), "{killed}");
    assert_ne!(done, killed);
}

#[test]
fn previews_say_what_would_be_done() {
    let argv = vec![p("cargo"), p("test"), p("a b")];
    assert_eq!(render_command_preview(&argv), "command preview: cargo test 'a b'");
    assert_eq!(
        render_suggested_rule(&argv),
        vec![
            "suggested rule (persist separately after approve):",
            "  attini session grant cargo test                # session-local",
            "  attini session grant cargo test --workspace    # workspace-wide",
        ]
    );
    let preview = PatchPreview {
        target_paths: vec![p("src/a.rs")],
        added_lines: 2,
        removed_lines: 1,
        edit_count: 1,
    };
    assert_eq!(
        render_patch_preview_text(&preview),
        "patch preview: 1 edit(s) across 1 file(s), +2 / -1 lines\n  src/a.rs"
    );
    let list = ReadOnlyTool::List {
        path: p("src"),
        recursive: true,
        max_entries: 3,
        include_hidden: false,
    };
    assert_eq!(summarize_read_only(&list), "list \"src\" recursive");
}

#[test]
fn arguments_are_quoted_for_the_shell() {
    assert_eq!(shell_single_quote("it's"), "'it'\\''s'");
    assert_eq!(shell_escape_argv(&vec![p("a"), p(""), p("b c")]), "a '' 'b c'");
    assert_eq!(shell_escape_argv(&vec![]), "");
}

#[test]
fn memories_are_put_together() {
    assert_eq!(load(&None, &None, &None), None);
    let all = load(&Some(p("G")), &Some(p("P")), &Some(p("S"))).unwrap();
    let at = |s: &str| all.find(s).unwrap();
    assert!(at("G") < at("P") && at("P") < at("S"), "{all}");
    let one = load(&None, &Some(p("only")), &None).unwrap();
    assert!(one.contains("only"));
}

#[test]
fn skills_and_notes_are_listed() {
    assert_eq!(render_available_skills(&vec![]), "");
    let text = render_available_skills(&vec![
        SkillEntry { name: p("a"), description: Some(p("does a")), oversized: false, broken: false },
        SkillEntry { name: p("b"), description: None, oversized: true, broken: false },
    ]);
    assert!(text.contains("a") && text.contains("does a") && text.contains("b"));
    assert!(render_scratchpad_note("my-session").contains("my-session"));
    assert_eq!(git_answer(true, b" main\n").as_deref(), Some("main"));
    assert_eq!(git_answer(false, b"main"), None);
    assert_eq!(git_answer(true, b"\n"), None);
}

fn context() -> InitialContext {
    InitialContext {
        workspace_root: p("/w"),
        git: GitFacts { toplevel: None, branch: None, git_dir: None },
        memory: Some(p("MEMORY")),
        summaries: vec![p("SUMMARY-1"), p("SUMMARY-2")],
        skills: vec![],
        system_prompt: Some(p("SYSTEM")),
        skill_body: None,
        references: vec![ResolvedReference { abs_path: p("/r"), inline: Some(p("REF")) }],
        session_name: p("s"),
        records: vec![ChatMessage::User(p("hello"))],
    }
}

#[test]
fn conversations_open_with_the_system_prompt() {
    let messages = build_initial_messages(&context());
    let system: Vec<&String> = messages
        .iter()
        .filter_map(|m| match m {
            ChatMessage::System(s) => Some(s),
            _ => None,
        })
        .collect();
    let all = system.iter().map(|s| s.as_str()).collect::<Vec<_>>().join("\n");
    for word in ["/w", "MEMORY", "SUMMARY-1", "SUMMARY-2", "SYSTEM", "REF"] {
        assert!(all.contains(word), "{word}");
    }
    assert!(all.find("SUMMARY-1").unwrap() < all.find("SUMMARY-2").unwrap());
    assert_eq!(messages.last(), Some(&ChatMessage::User(p("hello"))));
}

#[test]
fn roots_are_listed_once() {
    let roots = distinct_roots(&vec![p("/a"), p("/b"), p("/a")]);
    assert_eq!(roots, vec![p("/a"), p("/b")]);
    let references = vec![
        ResolvedReference { abs_path: p("/big"), inline: None },
        ResolvedReference { abs_path: p("/small"), inline: Some(String::new()) },
    ];
    assert_eq!(
        read_candidates(&vec![p("/x")], &vec![p("/y")], &references),
        vec![p("/x"), p("/y"), p("/big")]
    );
}

fn result(content: &str) -> CallResult {
    CallResult {
        content: p(content),
        reasoning_content: None,
        tool_calls: vec![],
        finish_reason: None,
        usage: None,
    }
}

#[test]
fn summaries_are_asked_for_and_kept() {
    assert_eq!(summary_or_err(&result(" short ")).unwrap().trim(), "short");
    assert!(summary_or_err(&result("  ")).is_err());
    assert_eq!(count_words(" a  b\tc\n"), 3);
    assert_eq!(count_words(""), 0);
    assert_eq!(
        summary_note(4, "one two"),
        "[compaction] applied. summarised 4 records into ~2 words."
    );
    assert!(trigger_note(123).starts_with("[compaction] previous prompt was 123 tokens"));

    let records: Vec<ChatMessageWithTs> = (0..200)
        .map(|ts| ChatMessageWithTs { message: ChatMessage::User("x".repeat(2000)), ts })
        .collect();
    assert!(plan_compaction("m", &vec![], None).is_none());
    let plan = plan_compaction("m", &records, Some(9)).unwrap();
    assert_eq!(plan.request.max_tokens, Some(9));
    assert_eq!(plan.since_ts, 0);
    assert_eq!(plan.cutoff_ts, plan.record_count as u64 - 1);
    assert_eq!(plan.request.model, "m");
    assert!(plan.request.tools.is_empty());
    assert_eq!(
        summary_record(&plan, p("text"), 300),
        SessionRecord::Summary {
            ts: 300,
            since_ts: 0,
            cutoff_ts: plan.cutoff_ts,
            text: p("text"),
        }
    );
    let request = ask_request("m", &records, Some("QUESTION"), Some("PRIOR"), None);
    assert_eq!(request.max_tokens, None);
    match &request.messages[..] {
        [ChatMessage::System(text)] => {
            assert!(text.contains("QUESTION") && text.contains("PRIOR"));
        }
        other => panic!("{other:?}"),
    }
}

#[test]
fn counters_add_up_and_stop_at_the_top() {
    let mut c = Counters {
        completion_tokens_total: u64::MAX - 1,
        ..Counters::default()
    };
    c.count_turn();
    c.count_error();
    c.count_compaction(true);
    c.count_compaction(false);
    c.count_usage(Usage {
        prompt_tokens: Some(10),
        completion_tokens: Some(5),
        total_tokens: None,
        prompt_cache_hit_tokens: Some(4),
        prompt_cache_miss_tokens: None,
    });
    let entries = c.to_metrics_entries(7);
    let value = |name: &str| entries.iter().find(|e| e.0 == name).unwrap().1;
    assert_eq!(value("turns"), 1);
    assert_eq!(value("tool_errors"), 1);
    assert_eq!(value("compaction_attempts"), 2);
    assert_eq!(value("compaction_failures"), 1);
    assert_eq!(value("completion_tokens_total"), u64::MAX);
    assert_eq!(value("prompt_cache_hit_tokens_total"), 4);
    assert_eq!(value("duration_ms"), 7);
}

#[test]
fn long_conversations_are_summed_up() {
    assert!(should_compact(false, Some(COMPACTION_TRIGGER_TOKENS)));
    assert!(!should_compact(false, Some(COMPACTION_TRIGGER_TOKENS - 1)));
    assert!(!should_compact(true, Some(COMPACTION_TRIGGER_TOKENS)));
    assert!(!should_compact(false, None));
}
