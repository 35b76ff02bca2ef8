//! Which commands are known to do no more than read.
use attini::sansio::safe_command::{safe_read_only, Safety};

fn argv(items: &[&str]) -> Vec<String> {
    items.iter().map(|s| s.to_string()).collect()
}

fn paths(items: &[&str]) -> Option<Vec<String>> {
    match safe_read_only(&argv(items)) {
        Safety::Safe { paths } => Some(paths),
        Safety::NotSafe => None,
    }
}

#[test]
fn git_status_is_safe() {
    assert_eq!(paths(&["git", "status"]), Some(vec![]));
    assert_eq!(paths(&["git", "status", "--short"]), Some(vec![]));
    assert_eq!(paths(&["git", "status", "--porcelain"]), Some(vec![]));
}

#[test]
fn git_status_unknown_flag_fails_closed() {
    assert_eq!(paths(&["git", "status", "--exec=evil"]), None);
    assert_eq!(paths(&["git", "status", "--bogus"]), None);
}

#[test]
fn git_basename_is_matched() {
    assert_eq!(paths(&["/usr/bin/git", "status"]), Some(vec![]));
}

#[test]
fn git_global_options_fail_closed() {
    assert_eq!(paths(&["git", "-C", "/tmp", "status"]), None);
    assert_eq!(paths(&["git", "--git-dir=/x", "status"]), None);
    assert_eq!(paths(&["git", "--work-tree", "/x", "status"]), None);
}

#[test]
fn git_diff_after_dash_dash_reports_paths() {
    assert_eq!(
        paths(&["git", "diff", "--", "src/lib.rs"]),
        Some(vec!["src/lib.rs".to_string()])
    );
}

#[test]
fn git_diff_rev_is_not_a_path() {
    assert_eq!(paths(&["git", "diff", "HEAD~1"]), Some(vec![]));
}

#[test]
fn git_diff_unknown_flag_fails_closed() {
    assert_eq!(paths(&["git", "diff", "--output=/x", "HEAD"]), None);
}

#[test]
fn git_branch_listing_is_safe() {
    assert_eq!(paths(&["git", "branch"]), Some(vec![]));
    assert_eq!(paths(&["git", "branch", "-a"]), Some(vec![]));
    assert_eq!(paths(&["git", "branch", "--show-current"]), Some(vec![]));
}

#[test]
fn git_branch_delete_fails_closed() {
    assert_eq!(paths(&["git", "branch", "-D", "foo"]), None);
    assert_eq!(paths(&["git", "branch", "-d", "foo"]), None);
    assert_eq!(paths(&["git", "branch", "foo"]), None, "create is a write");
}

#[test]
fn git_remote_read_forms_are_safe() {
    assert_eq!(paths(&["git", "remote"]), Some(vec![]));
    assert_eq!(paths(&["git", "remote", "-v"]), Some(vec![]));
    assert_eq!(paths(&["git", "remote", "show"]), Some(vec![]));
}

#[test]
fn git_remote_write_forms_fail_closed() {
    assert_eq!(paths(&["git", "remote", "add", "origin", "url"]), None);
    assert_eq!(paths(&["git", "remote", "remove", "origin"]), None);
    assert_eq!(paths(&["git", "remote", "prune"]), None);
}

#[test]
fn git_write_subcommands_fail_closed() {
    assert_eq!(paths(&["git", "add", "x"]), None);
    assert_eq!(paths(&["git", "commit", "-m", "x"]), None);
    assert_eq!(paths(&["git", "push"]), None);
    assert_eq!(paths(&["git", "fetch"]), None);
    assert_eq!(paths(&["git", "clean", "-fd"]), None);
    assert_eq!(paths(&["git", "reset", "--hard"]), None);
}

#[test]
fn non_git_programs_fail_closed_for_now() {
    assert_eq!(paths(&["cat", "src/lib.rs"]), None);
    assert_eq!(paths(&["bash", "-c", "ls"]), None);
    assert_eq!(paths(&["ls"]), None);
    assert_eq!(paths(&[]), None);
}

#[test]
fn git_remote_refuses_options_behind_its_read_forms() {
    assert_eq!(paths(&["git", "remote", "show", "--bogus"]), None);
    assert_eq!(paths(&["git", "remote", "get-url", "--bogus"]), None);
    assert_eq!(paths(&["git", "remote", "show", "origin"]), Some(vec![]));
}
