//! How permission rules judge a request.
use attini::sansio::permissions::{
    evaluate, evaluate_read, evaluate_write, Authorization, Judgment, PermissionKind, Rule,
    RuleScope,
};

fn argv(items: &[&str]) -> Vec<String> {
    items.iter().map(|s| s.to_string()).collect()
}

fn cmd(allow: bool, prefix: &[&str]) -> Rule {
    Rule::command(allow, argv(prefix))
}

#[test]
fn evaluate_allow_rule_matches() {
    let r = cmd(true, &["cargo", "test"]);
    let layers = [(RuleScope::Workspace, std::slice::from_ref(&r))];
    match evaluate(
        &layers,
        &argv(&["cargo", "test", "--workspace"]),
        &Authorization::PerTool,
    ) {
        Judgment::AutoApprove(d) => {
            assert!(d.allowed);
            assert_eq!(d.args_prefix, argv(&["cargo", "test"]));
            assert_eq!(d.scope, RuleScope::Workspace);
            assert_eq!(d.matches.len(), 1);
            assert!(d.matches[0].adopted);
        }
        other => panic!("expected AutoApprove, got {other:?}"),
    }
}

#[test]
fn evaluate_no_match_pends() {
    let r = cmd(true, &["ls"]);
    let layers = [(RuleScope::Workspace, std::slice::from_ref(&r))];
    assert!(matches!(
        evaluate(&layers, &argv(&["cat", "x"]), &Authorization::PerTool),
        Judgment::Pending
    ));
}

#[test]
fn evaluate_deny_rule_alone_denies() {
    let r = cmd(false, &["rm", "-rf"]);
    let layers = [(RuleScope::Workspace, std::slice::from_ref(&r))];
    assert!(matches!(
        evaluate(
            &layers,
            &argv(&["rm", "-rf", "tmp"]),
            &Authorization::PerTool
        ),
        Judgment::AutoDeny(_)
    ));
}

#[test]
fn evaluate_last_match_wins_session_overrides_workspace() {
    // Workspace denies, session allows -> session (later) wins.
    let ws = cmd(false, &["cargo", "test"]);
    let sess = cmd(true, &["cargo", "test"]);
    let layers = [
        (RuleScope::Workspace, std::slice::from_ref(&ws)),
        (RuleScope::Session, std::slice::from_ref(&sess)),
    ];
    match evaluate(&layers, &argv(&["cargo", "test"]), &Authorization::PerTool) {
        Judgment::AutoApprove(d) => {
            assert_eq!(d.scope, RuleScope::Session);
            // Both matched; the workspace one is not adopted.
            assert_eq!(d.matches.len(), 2);
            assert!(!d.matches[0].adopted);
            assert!(d.matches[1].adopted);
        }
        other => panic!("expected AutoApprove(session), got {other:?}"),
    }
}

#[test]
fn evaluate_last_match_wins_workspace_deny_over_session_allow() {
    // Session allows, workspace denies -> workspace deny wins order.
    let ws = cmd(false, &["cargo", "test"]);
    let sess = cmd(true, &["cargo", "test"]);
    let layers = [
        (RuleScope::Workspace, std::slice::from_ref(&ws)),
        (RuleScope::Session, std::slice::from_ref(&sess)),
    ];
    // Session is later, so session allow actually wins here.
    assert!(matches!(
        evaluate(&layers, &argv(&["cargo", "test"]), &Authorization::PerTool),
        Judgment::AutoApprove(_)
    ));
}

#[test]
fn evaluate_rule_prefix_longer_than_argv_does_not_match() {
    let r = cmd(true, &["cargo", "test", "--all"]);
    let layers = [(RuleScope::Workspace, std::slice::from_ref(&r))];
    assert!(matches!(
        evaluate(&layers, &argv(&["cargo", "test"]), &Authorization::PerTool),
        Judgment::Pending
    ));
}

#[test]
fn evaluate_element_wise_mismatch_does_not_match() {
    let r = cmd(true, &["cargo", "test"]);
    let layers = [(RuleScope::Workspace, std::slice::from_ref(&r))];
    assert!(matches!(
        evaluate(&layers, &argv(&["cargo", "check"]), &Authorization::PerTool),
        Judgment::Pending
    ));
}

#[test]
fn evaluate_empty_argv_prefix_never_matches() {
    let r = cmd(true, &[]);
    let layers = [(RuleScope::Workspace, std::slice::from_ref(&r))];
    assert!(matches!(
        evaluate(&layers, &argv(&["ls"]), &Authorization::PerTool),
        Judgment::Pending
    ));
}

#[test]
fn evaluate_bash_dash_c_without_matching_rule_pends() {
    let r = cmd(true, &["cargo", "test"]);
    let layers = [(RuleScope::Workspace, std::slice::from_ref(&r))];
    assert!(matches!(
        evaluate(
            &layers,
            &argv(&["bash", "-c", "ls | head"]),
            &Authorization::PerTool
        ),
        Judgment::Pending
    ));
}

#[test]
fn evaluate_bash_dash_c_with_matching_rule_auto_approves() {
    let r = cmd(true, &["bash", "-c"]);
    let layers = [(RuleScope::Workspace, std::slice::from_ref(&r))];
    match evaluate(
        &layers,
        &argv(&["bash", "-c", "ls | head"]),
        &Authorization::PerTool,
    ) {
        Judgment::AutoApprove(d) => assert_eq!(d.args_prefix, argv(&["bash", "-c"])),
        other => panic!("expected AutoApprove for approved bash -c, got {other:?}"),
    }
}

#[test]
fn read_rule_matches_recursively_on_segments() {
    let r = Rule::read(true, "foo/bar".to_string());
    let layers = [(RuleScope::Workspace, std::slice::from_ref(&r))];
    assert!(matches!(
        evaluate_read(&layers, "foo/bar", &Authorization::PerTool),
        Judgment::AutoApprove(_)
    ));
    assert!(matches!(
        evaluate_read(&layers, "foo/bar/y/z", &Authorization::PerTool),
        Judgment::AutoApprove(_)
    ));
    assert!(matches!(
        evaluate_read(&layers, "foo/barbaz", &Authorization::PerTool),
        Judgment::Pending
    ));
}

#[test]
fn read_deny_rule_denies() {
    let r = Rule::read(false, "secret".to_string());
    let layers = [(RuleScope::Workspace, std::slice::from_ref(&r))];
    assert!(matches!(
        evaluate_read(&layers, "secret/x", &Authorization::PerTool),
        Judgment::AutoDeny(_)
    ));
}

#[test]
fn write_rule_matches_recursively_on_segments() {
    let r = Rule::write(true, "src".to_string());
    let layers = [(RuleScope::Workspace, std::slice::from_ref(&r))];
    assert!(matches!(
        evaluate_write(&layers, "src/lib.rs", &Authorization::PerTool),
        Judgment::AutoApprove(_)
    ));
    assert!(matches!(
        evaluate_write(
            &layers,
            "src/deep/mod.rs",
            &Authorization::PerTool
        ),
        Judgment::AutoApprove(_)
    ));
    assert!(matches!(
        evaluate_write(&layers, "src2/lib.rs", &Authorization::PerTool),
        Judgment::Pending
    ));
}

#[test]
fn write_deny_rule_denies() {
    let r = Rule::write(false, "src/generated".to_string());
    let layers = [(RuleScope::Workspace, std::slice::from_ref(&r))];
    assert!(matches!(
        evaluate_write(
            &layers,
            "src/generated/x.rs",
            &Authorization::PerTool
        ),
        Judgment::AutoDeny(_)
    ));
}

#[test]
fn write_and_read_rules_do_not_cross_match() {
    let read_rule = Rule::read(true, "src".to_string());
    let write_rule = Rule::write(true, "src".to_string());
    let layers = [
        (RuleScope::Workspace, std::slice::from_ref(&read_rule)),
        (RuleScope::Session, std::slice::from_ref(&write_rule)),
    ];
    // A write evaluation ignores the read rule; only the write match counts.
    match evaluate_write(&layers, "src/lib.rs", &Authorization::PerTool) {
        Judgment::AutoApprove(d) => {
            assert_eq!(d.scope, RuleScope::Session);
            assert_eq!(d.matches.len(), 1);
            assert_eq!(d.matches[0].kind, PermissionKind::Write);
        }
        other => panic!("expected AutoApprove(session write), got {other:?}"),
    }
    // And the read evaluation ignores the write rule.
    match evaluate_read(&layers, "src/lib.rs", &Authorization::PerTool) {
        Judgment::AutoApprove(d) => {
            assert_eq!(d.scope, RuleScope::Workspace);
            assert_eq!(d.matches.len(), 1);
            assert_eq!(d.matches[0].kind, PermissionKind::Read);
        }
        other => panic!("expected AutoApprove(workspace read), got {other:?}"),
    }
}

#[test]
fn read_and_command_rules_do_not_cross_match() {
    let cmd_rule = cmd(true, &["foo"]);
    let read_rule = Rule::read(true, "foo".to_string());
    let layers = [
        (RuleScope::Workspace, std::slice::from_ref(&cmd_rule)),
        (RuleScope::Session, std::slice::from_ref(&read_rule)),
    ];
    // A command evaluation ignores the read rule; only the command match counts.
    match evaluate(&layers, &argv(&["foo", "bar"]), &Authorization::PerTool) {
        Judgment::AutoApprove(d) => {
            assert_eq!(d.scope, RuleScope::Workspace);
            assert_eq!(d.matches.len(), 1);
            assert_eq!(d.matches[0].kind, PermissionKind::Command);
        }
        other => panic!("expected AutoApprove(workspace command), got {other:?}"),
    }
}

#[test]
fn read_decisions_name_the_path_of_the_rule() {
    let r = Rule::read(true, "foo/bar".to_string());
    let layers = [(RuleScope::Workspace, std::slice::from_ref(&r))];
    match evaluate_read(&layers, "foo/bar/y/z", &Authorization::PerTool) {
        Judgment::AutoApprove(d) => assert_eq!(d.args_prefix, argv(&["foo/bar"])),
        other => panic!("expected AutoApprove, got {other:?}"),
    }
}
