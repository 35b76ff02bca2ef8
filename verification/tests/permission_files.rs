//! How permission files are read and written.
use attini::permissions::{
    append_rule_line, grant, grant_read, grant_write, load, parse_jsonl, parse_rule_line,
    render_rule_line, session_permissions_path, workspace_permissions_path, GrantError,
    GrantOutcome, PERMISSIONS_FILENAME,
};
use attini::sansio::permissions::{
    evaluate, Authorization, Judgment, PermissionKind, Rule, RuleScope,
};

#[test]
fn parse_jsonl_reads_command_and_read_rules_skipping_comments() {
    let text = r#"
# allow cargo test
{"type":"command","allow":true,"args_prefix":["cargo","test"]}

# deny rm
{"type":"command","allow":false,"args_prefix":["rm"]}
{"type":"read","allow":true,"path":"../docs/"}
"#;
    let rules = parse_jsonl(text, PERMISSIONS_FILENAME, "workspace").rules;
    assert_eq!(rules.len(), 3);
    assert_eq!(rules[0].kind, PermissionKind::Command);
    assert!(rules[0].allow);
    assert_eq!(
        rules[0].args_prefix,
        vec!["cargo".to_string(), "test".to_string()]
    );
    assert_eq!(rules[1].kind, PermissionKind::Command);
    assert!(!rules[1].allow);
    assert_eq!(rules[2].kind, PermissionKind::Read);
    assert_eq!(rules[2].path, "../docs/");
}

#[test]
fn parse_jsonl_skips_malformed_line_and_keeps_rest() {
    let text = r#"{"type":"command","allow":true,"args_prefix":["ls"]}
not json
{"type":"command","allow":true,"args_prefix":["cat"]}
"#;
    let rules = parse_jsonl(text, PERMISSIONS_FILENAME, "workspace").rules;
    assert_eq!(rules.len(), 2);
    assert_eq!(rules[0].args_prefix, vec!["ls".to_string()]);
    assert_eq!(rules[1].args_prefix, vec!["cat".to_string()]);
}

#[test]
fn rule_without_allow_is_skipped() {
    let text = r#"{"type":"command","args_prefix":["ls"]}
"#;
    let rules = parse_jsonl(text, PERMISSIONS_FILENAME, "workspace").rules;
    assert!(rules.is_empty());
}

#[test]
fn read_rule_may_omit_allow() {
    let text = r#"{"type":"read","path":"../docs/"}
"#;
    let rules = parse_jsonl(text, PERMISSIONS_FILENAME, "workspace").rules;
    assert_eq!(rules.len(), 1);
    assert_eq!(rules[0].kind, PermissionKind::Read);
    assert!(rules[0].allow);
    assert_eq!(rules[0].path, "../docs/");
}

#[test]
fn read_rule_with_allow_false_is_skipped() {
    // Read rules are allow-only; `allow:false` is not supported and
    // the line is rejected (reported and skipped).
    let text = r#"{"type":"read","allow":false,"path":"secret/"}
"#;
    let rules = parse_jsonl(text, PERMISSIONS_FILENAME, "workspace").rules;
    assert!(rules.is_empty());
}

#[test]
fn unknown_type_is_skipped() {
    let text = r#"{"type":"bogus","allow":true,"path":"src/"}
"#;
    let rules = parse_jsonl(text, PERMISSIONS_FILENAME, "workspace").rules;
    assert!(rules.is_empty());
}

#[test]
fn write_rule_parses_and_round_trips() {
    let text = r#"{"type":"write","allow":true,"path":"src/"}
{"type":"write","allow":false,"path":"src/generated"}
"#;
    let rules = parse_jsonl(text, PERMISSIONS_FILENAME, "workspace").rules;
    assert_eq!(rules.len(), 2);
    assert_eq!(rules[0].kind, PermissionKind::Write);
    assert!(rules[0].allow);
    assert_eq!(rules[0].path, "src/");
    assert_eq!(rules[1].kind, PermissionKind::Write);
    assert!(!rules[1].allow);
    assert_eq!(
        render_rule_line(&rules[0]),
        r#"{"type":"write","allow":true,"path":"src/"}"#
    );
}

#[test]
fn render_rule_line_matches_canonical_field_order() {
    let cmd = Rule::command(true, vec!["cargo".to_string(), "test".to_string()]);
    assert_eq!(
        render_rule_line(&cmd),
        r#"{"type":"command","allow":true,"args_prefix":["cargo","test"]}"#
    );
    // Read rules are allow-only: `allow` is omitted from the line.
    let read = Rule::read(true, "secret/".to_string());
    assert_eq!(
        render_rule_line(&read),
        r#"{"type":"read","path":"secret/"}"#
    );
    let write = Rule::write(true, "src/".to_string());
    assert_eq!(
        render_rule_line(&write),
        r#"{"type":"write","allow":true,"path":"src/"}"#
    );
}

#[test]
fn append_rule_line_preserves_comments_and_appends_one_line() {
    let before =
        "# my rules\n{\"type\":\"command\",\"allow\":true,\"args_prefix\":[\"ls\"]}\n".to_string();
    let rule = Rule::command(true, vec!["cargo".to_string(), "test".to_string()]);
    let written = append_rule_line(before, &rule);
    assert!(written.starts_with("# my rules\n"));
    assert!(written.contains(r#"{"type":"command","allow":true,"args_prefix":["ls"]}"#));
    assert!(written.ends_with(
        r#"{"type":"command","allow":true,"args_prefix":["cargo","test"]}
"#
    ));
}

#[test]
fn load_merges_read_paths_from_both_tiers() {
    let workspace = r#"{"type":"read","path":"../docs/"}
{"type":"read","path":"/opt/shared"}
"#;
    let session = r#"{"type":"read","path":"../docs/"}
"#;
    let (rules, warnings) = load(workspace, "w", session, "s");
    assert_eq!(rules.extra_read_paths.len(), 2);
    assert_eq!(
        rules.extra_read_paths,
        vec!["../docs/".to_string(), "/opt/shared".to_string()]
    );
    assert!(warnings.is_empty());
}

#[test]
fn lines_that_cannot_be_read_are_reported_with_their_number() {
    let workspace = "# rules\n{\"type\":\"bogus\"}\n";
    let session = "\n\n{\"type\":\"command\",\"allow\":true,\"args_prefix\":[\"ls\",\"\"]}";
    let (rules, warnings) = load(workspace, "a.jsonl", session, "b.jsonl");
    assert!(rules.workspace.is_empty());
    assert!(rules.session.is_empty());
    assert_eq!(
        warnings,
        vec![
            "attini: workspace permissions a.jsonl line 2: skipping (unknown type \"bogus\" \
             (expected \"command\", \"read\" or \"write\"))"
                .to_string(),
            "attini: session permissions b.jsonl line 3: skipping (args_prefix contains an \
             empty element)"
                .to_string(),
        ]
    );
}

#[test]
fn each_field_of_a_rule_is_checked() {
    let err = |line: &str| parse_rule_line(line).expect_err("refused");
    assert_eq!(
        err(r#"{"type":"command","allow":true,"args_prefix":[]}"#),
        "args_prefix is empty"
    );
    assert_eq!(err(r#"{"type":"write","allow":true,"path":"  "}"#), "path is empty");
    assert_eq!(
        err(r#"{"type":"read","allow":false,"path":"x"}"#),
        "read rules are allow-only; `allow:false` is not supported"
    );
    assert!(err(r#"{"type":"write","allow":1,"path":"x"}"#).starts_with("allow: "));
    assert!(err(r#"{"allow":true}"#).starts_with("type: "));
}

#[test]
fn a_grant_is_appended_once() {
    let args = vec!["cargo".to_string(), "test".to_string()];
    let none: Vec<Rule> = Vec::new();
    let first = grant("f", &none, &args).expect("granted");
    let rule = match first {
        GrantOutcome::Appended(rule) => rule,
        other => panic!("expected Appended, got {other:?}"),
    };
    let text = append_rule_line(String::new(), &rule);
    let rules = parse_jsonl(&text, "f", "workspace").rules;
    assert_eq!(rules, vec![Rule::command(true, args.clone())]);
    assert_eq!(grant("f", &rules, &args), Ok(GrantOutcome::AlreadyGranted));
    // The granted words, and whatever follows them, run without asking.
    assert!(matches!(
        evaluate(
            &[(RuleScope::Workspace, rules.as_slice())],
            &vec!["cargo".to_string(), "test".to_string(), "-q".to_string()],
            &Authorization::PerTool
        ),
        Judgment::AutoApprove(_)
    ));
}

#[test]
fn grants_are_refused_with_a_reason() {
    let none: Vec<Rule> = Vec::new();
    assert_eq!(grant("f", &none, &vec![]), Err(GrantError::ArgsEmpty));
    assert_eq!(
        grant("f", &none, &vec!["ls".to_string(), String::new()]),
        Err(GrantError::ArgsEmpty)
    );
    assert_eq!(grant_read(&none, " "), Err(GrantError::ArgsEmpty));
    assert_eq!(grant_write("f", &none, "\t"), Err(GrantError::ArgsEmpty));
    let denied = vec![
        Rule::command(false, vec!["rm".to_string()]),
        Rule::write(false, "src".to_string()),
    ];
    let err = grant("f", &denied, &vec!["rm".to_string()]).expect_err("conflict");
    assert_eq!(
        err.to_string(),
        "command rule for args_prefix [\"rm\"] already exists as `allow:false` in f; edit \
         manually to resolve"
    );
    let err = grant_write("f", &denied, "src").expect_err("conflict");
    assert_eq!(
        err.to_string(),
        "write rule for path \"src\" already exists as `allow:false` in f; edit manually to \
         resolve"
    );
    assert_eq!(
        grant_read(&none, "docs"),
        Ok(GrantOutcome::Appended(Rule::read(true, "docs".to_string())))
    );
    assert_eq!(
        GrantError::SessionMissing("d".to_string()).to_string(),
        "session directory not found: d"
    );
}

#[test]
fn permission_files_have_their_places() {
    assert_eq!(workspace_permissions_path(), ".attini/permissions.jsonl");
    assert_eq!(
        session_permissions_path(".attini/main"),
        ".attini/main/permissions.jsonl"
    );
}

#[test]
fn granted_paths_are_approved() {
    let rule = match attini::permissions::grant_write("f", &vec![], "src") {
        Ok(attini::permissions::GrantOutcome::Appended(rule)) => rule,
        other => panic!("{other:?}"),
    };
    let text = attini::permissions::append_rule_line("# rules".to_string(), &rule);
    let parsed = attini::permissions::parse_jsonl(&text, "f", "workspace");
    assert!(parsed.warnings.is_empty());
    let layers = [(
        attini::sansio::permissions::RuleScope::Workspace,
        parsed.rules.as_slice(),
    )];
    let authorization = attini::sansio::permissions::Authorization::PerTool;
    let judge = |path: &str| {
        attini::sansio::permissions::evaluate_write(&layers, path, &authorization)
    };
    assert!(matches!(
        judge("src/a.rs"),
        attini::sansio::permissions::Judgment::AutoApprove(_)
    ));
    assert!(matches!(
        judge("srcs/a.rs"),
        attini::sansio::permissions::Judgment::Pending
    ));
}
