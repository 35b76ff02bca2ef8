//! How tool calls are read, and how their errors are worded.
use attini::sansio::agent::{
    CommandError, CommandInvocation, PatchError, PatchInvocation, PatchTool,
    PlanProposeInvocation, ReadOnlyTool, SubmitPlanInvocation, ToolExecutionError,
    DEFAULT_LIST_MAX_ENTRIES, DEFAULT_SEARCH_MAX_RESULTS, PATCH_MAX_EDITS, PATCH_MAX_FILE_BYTES,
};

#[test]
fn readonly_tool_definitions_expose_the_three_tools() {
    let defs = ReadOnlyTool::definitions();
    let names: Vec<&str> = defs.iter().map(|d| d.name.as_str()).collect();
    assert_eq!(names, vec!["list", "read", "search"]);
}

#[test]
fn readonly_tool_parse_list_defaults() {
    let tool = ReadOnlyTool::parse("list", r#"{"path":"src"}"#).expect("parses");
    assert_eq!(
        tool,
        ReadOnlyTool::List {
            path: "src".to_string(),
            recursive: false,
            max_entries: DEFAULT_LIST_MAX_ENTRIES,
            include_hidden: false,
        }
    );
}

#[test]
fn readonly_tool_parse_read_with_line_range() {
    let tool = ReadOnlyTool::parse("read", r#"{"path":"src/main.rs","line_range":[10,20]}"#)
        .expect("parses");
    assert_eq!(
        tool,
        ReadOnlyTool::Read {
            path: "src/main.rs".to_string(),
            line_range: Some((10, 20)),
        }
    );
}

#[test]
fn readonly_tool_parse_search_with_defaults() {
    let tool = ReadOnlyTool::parse("search", r#"{"pattern":"TODO"}"#).expect("parses");
    assert_eq!(
        tool,
        ReadOnlyTool::Search {
            pattern: "TODO".to_string(),
            path_prefix: None,
            case_sensitive: false,
            max_results: DEFAULT_SEARCH_MAX_RESULTS,
        }
    );
}

#[test]
fn readonly_tool_parse_unknown_function_name() {
    let err = ReadOnlyTool::parse("foo", "{}").expect_err("unknown");
    assert_eq!(err, ToolExecutionError::UnknownTool);
}

#[test]
fn readonly_tool_parse_invalid_json_is_reported() {
    let err = ReadOnlyTool::parse("list", "not-json").expect_err("invalid");
    assert!(matches!(err, ToolExecutionError::ArgumentsParseFailed(_)));
}

#[test]
fn tool_execution_error_to_json_includes_code_and_message() {
    let s = ToolExecutionError::OutsideWorkspace.to_json_string();
    assert!(s.contains(r#""error":"outside_workspace""#));
    assert!(s.contains(r#""message""#));
}

#[test]
fn patch_definition_advertises_the_patch_function_name() {
    let def = PatchInvocation::definition();
    assert_eq!(def.name, "patch");
    assert!(def.description.contains("approval"));
    assert!(def.parameters_json.contains("edits"));
}

#[test]
fn patch_parse_add_and_update_edits() {
    let inv = PatchInvocation::parse(
        r#"{"edits":[
            {"kind":"add","path":"a.txt","content":"hello"},
            {"kind":"update","path":"b.txt","before":"foo","after":"bar"}
        ]}"#,
    )
    .expect("parses");
    assert_eq!(inv.edits.len(), 2);
    assert_eq!(
        inv.edits[0],
        PatchTool::Add {
            path: "a.txt".to_string(),
            content: "hello".to_string(),
        }
    );
    assert_eq!(
        inv.edits[1],
        PatchTool::Update {
            path: "b.txt".to_string(),
            before: "foo".to_string(),
            after: "bar".to_string(),
        }
    );
}

#[test]
fn patch_parse_rejects_same_path_twice() {
    let err = PatchInvocation::parse(
        r#"{"edits":[
            {"kind":"update","path":"dup","before":"a","after":"b"},
            {"kind":"update","path":"dup","before":"c","after":"d"}
        ]}"#,
    )
    .expect_err("same-path rejected");
    assert_eq!(
        err,
        ToolExecutionError::Patch(PatchError::MultipleEditsSamePath {
            path: "dup".to_string(),
        })
    );
}

#[test]
fn patch_parse_rejects_empty_edits() {
    let err = PatchInvocation::parse(r#"{"edits":[]}"#).expect_err("empty rejected");
    assert!(matches!(err, ToolExecutionError::ArgumentsParseFailed(_)));
}

#[test]
fn patch_parse_rejects_too_many_edits() {
    let mut edits = String::from("[");
    for i in 0..(PATCH_MAX_EDITS + 1) {
        if i > 0 {
            edits.push(',');
        }
        edits.push_str(&format!(r#"{{"kind":"add","path":"f{i}","content":""}}"#));
    }
    edits.push(']');
    let json = format!(r#"{{"edits":{edits}}}"#);
    let err = PatchInvocation::parse(&json).expect_err("too many rejected");
    assert!(matches!(
        err,
        ToolExecutionError::Patch(PatchError::TooManyEdits { .. })
    ));
}

#[test]
fn patch_parse_rejects_unknown_kind() {
    let err = PatchInvocation::parse(r#"{"edits":[{"kind":"delete","path":"x"}]}"#)
        .expect_err("unknown kind rejected");
    assert!(matches!(err, ToolExecutionError::ArgumentsParseFailed(_)));
}

#[test]
fn patch_parse_rejects_add_over_size_limit() {
    let big = "x".repeat(PATCH_MAX_FILE_BYTES + 1);
    let json = format!(
        r#"{{"edits":[{{"kind":"add","path":"big","content":{}}}]}}"#,
        nojson::Json(&big),
    );
    let err = PatchInvocation::parse(&json).expect_err("too big rejected");
    assert!(matches!(
        err,
        ToolExecutionError::Patch(PatchError::FileTooLarge { .. })
    ));
}

#[test]
fn patch_error_json_encodes_code_and_message() {
    let e = ToolExecutionError::Patch(PatchError::NoMatch {
        path: "a.txt".to_string(),
    });
    let s = e.to_json_string();
    assert!(s.contains(r#""error":"patch_no_match""#), "got {s}");
    assert!(s.contains("a.txt"));
}

#[test]
fn patch_error_json_includes_hint_for_same_path() {
    let e = ToolExecutionError::Patch(PatchError::MultipleEditsSamePath {
        path: "dup".to_string(),
    });
    let s = e.to_json_string();
    assert!(
        s.contains(r#""error":"patch_multiple_edits_same_path""#),
        "got {s}"
    );
    assert!(s.contains(r#""hint":"#), "expected a hint member in {s}");
    assert!(s.contains("separate patch calls"), "got {s}");
}

#[test]
fn patch_error_json_emits_null_hint_when_not_actionable() {
    let e = ToolExecutionError::Patch(PatchError::Rejected);
    let s = e.to_json_string();
    assert!(s.contains(r#""error":"patch_rejected""#), "got {s}");
    assert!(
        s.contains(r#""hint":null"#),
        "Rejected should emit null hint: {s}"
    );
}

#[test]
fn command_definition_advertises_the_command_function_name() {
    let def = CommandInvocation::definition();
    assert_eq!(def.name, "command");
    assert!(def.description.contains("approval"));
    assert!(def.parameters_json.contains("argv"));
    assert!(!def.parameters_json.contains("timeout_seconds"));
}

#[test]
fn command_parse_extracts_argv() {
    let inv = CommandInvocation::parse(r#"{"argv":["ls","-la"]}"#).expect("parses");
    assert_eq!(inv.argv, vec!["ls".to_string(), "-la".to_string()]);
}

#[test]
fn command_parse_ignores_stray_timeout_seconds() {
    // The field is no longer part of the schema but old sessions
    // (or a confused model) may still emit it. Parsing must not
    // fail on extra keys.
    let inv = CommandInvocation::parse(r#"{"argv":["cargo","test"],"timeout_seconds":120}"#)
        .expect("parses");
    assert_eq!(inv.argv, vec!["cargo".to_string(), "test".to_string()]);
}

#[test]
fn command_parse_rejects_empty_argv() {
    let err = CommandInvocation::parse(r#"{"argv":[]}"#).expect_err("empty rejected");
    assert_eq!(err, ToolExecutionError::Command(CommandError::EmptyArgv));
}

#[test]
fn command_error_json_encodes_code_and_message() {
    let e = ToolExecutionError::Command(CommandError::SpawnFailed {
        message: "no such file".to_string(),
    });
    let s = e.to_json_string();
    assert!(s.contains(r#""error":"command_spawn_failed""#), "got {s}");
    assert!(s.contains("no such file"));
}

fn valid_submit_json() -> String {
    r#"{"body_markdown":"plan body","confirmations":[{"id":"migration","description":"run migration"}],"patches":[{"id":"fix-parser","path":"src/parser.rs","description":"fix parser"}],"commands":[{"id":"test","argv":["cargo","test"],"description":"run tests"}]}"#
        .to_string()
}

#[test]
fn submit_plan_parses_valid_arguments() {
    let inv = SubmitPlanInvocation::parse(&valid_submit_json()).expect("parse");
    assert_eq!(inv.body_markdown, "plan body");
    assert_eq!(inv.confirmations.len(), 1);
    assert_eq!(inv.confirmations[0].id, "migration");
    assert_eq!(inv.patches[0].path, "src/parser.rs");
    assert_eq!(
        inv.commands[0].argv,
        vec!["cargo".to_string(), "test".to_string()]
    );
}

#[test]
fn submit_plan_rejects_reserved_all_ok_id() {
    let json =
        r#"{"body_markdown":"b","confirmations":[{"id":"all-ok","description":"reserved"}]}"#;
    assert!(SubmitPlanInvocation::parse(json).is_err());
}

#[test]
fn submit_plan_rejects_empty_body() {
    let json = r#"{"body_markdown":"   "}"#;
    assert!(SubmitPlanInvocation::parse(json).is_err());
}

#[test]
fn submit_plan_rejects_invalid_id() {
    let json = r#"{"body_markdown":"b","confirmations":[{"id":"Bad_Id","description":"x"}]}"#;
    assert!(SubmitPlanInvocation::parse(json).is_err());
}

#[test]
fn submit_plan_rejects_duplicate_ids_across_kinds() {
    let json = r#"{"body_markdown":"b","confirmations":[{"id":"dup","description":"c"}],"patches":[{"id":"dup","path":"src/a.rs","description":"p"}]}"#;
    assert!(SubmitPlanInvocation::parse(json).is_err());
}

#[test]
fn submit_plan_rejects_duplicate_patch_path() {
    let json = r#"{"body_markdown":"b","patches":[{"id":"a","path":"src/x.rs","description":"p1"},{"id":"b","path":"src/x.rs","description":"p2"}]}"#;
    assert!(SubmitPlanInvocation::parse(json).is_err());
}

#[test]
fn submit_plan_rejects_empty_command_argv() {
    let json = r#"{"body_markdown":"b","commands":[{"id":"a","argv":[],"description":"c"}]}"#;
    assert!(SubmitPlanInvocation::parse(json).is_err());
}

#[test]
fn submit_plan_rejects_duplicate_command_argv() {
    let json = r#"{"body_markdown":"b","commands":[{"id":"a","argv":["ls"],"description":"c1"},{"id":"b","argv":["ls"],"description":"c2"}]}"#;
    assert!(SubmitPlanInvocation::parse(json).is_err());
}

#[test]
fn plan_propose_parses_valid_arguments() {
    let inv = PlanProposeInvocation::parse(&valid_submit_json()).expect("parse");
    assert_eq!(inv.inner.body_markdown, "plan body");
    assert_eq!(inv.inner.confirmations.len(), 1);
    assert_eq!(inv.inner.confirmations[0].id, "migration");
    assert_eq!(inv.inner.commands[0].argv, vec!["cargo".to_string(), "test".to_string()]);
}

#[test]
fn plan_propose_rewrites_error_prefix_to_plan() {
    let json = r#"{"body_markdown":"   "}"#;
    let err = PlanProposeInvocation::parse(json).unwrap_err();
    let msg = format!("{err:?}");
    assert!(msg.contains("plan:"), "expected a `plan:` prefix, got: {msg}");
    assert!(!msg.contains("submit_plan"), "stale prefix leaked: {msg}");
}
