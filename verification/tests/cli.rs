//! Arguments of the command line.
use attini::agent_cli::{
    DEFAULT_SESSION_TOOL_CALL_MAX, DEFAULT_TOOL_CALL_RATE_CALLS,
    DEFAULT_TOOL_CALL_RATE_WINDOW_SECS, DEFAULT_TURN_TOOL_CALL_LIMIT,
};
use attini::cli::{
    append_stdin_aux, parse_grant_request, parse_session_tool_call_max, parse_tool_call_rate,
    stdin_auxiliary, GrantRequest, DEFAULT_SESSION_TOOL_CALL_MAX_STR, DEFAULT_TOOL_CALL_RATE_STR,
    DEFAULT_TURN_TOOL_CALL_LIMIT_STR, MAX_STDIN_BYTES,
};
use attini::time::Duration;

#[test]
fn default_string_constants_stay_in_sync() {
    // The `.default()` argument of noargs::opt requires a
    // `&'static str`, so the CLI mirrors the numeric defaults in
    // `tell_cli` with these string constants. This test guards
    // against them silently drifting apart.
    assert_eq!(
        DEFAULT_TURN_TOOL_CALL_LIMIT_STR,
        DEFAULT_TURN_TOOL_CALL_LIMIT.to_string()
    );
    assert_eq!(
        DEFAULT_TOOL_CALL_RATE_STR,
        format!(
            "{}/{}",
            DEFAULT_TOOL_CALL_RATE_CALLS, DEFAULT_TOOL_CALL_RATE_WINDOW_SECS
        )
    );
    assert_eq!(
        DEFAULT_SESSION_TOOL_CALL_MAX_STR,
        DEFAULT_SESSION_TOOL_CALL_MAX.to_string()
    );
}

#[test]
fn tool_call_rate_none_disables() {
    match parse_tool_call_rate("none") {
        Ok(None) => {}
        other => panic!("expected Ok(None), got is_ok={}", other.is_ok()),
    }
}

#[test]
fn tool_call_rate_valid_form_parses() {
    match parse_tool_call_rate("30/15") {
        Ok(Some(rl)) => {
            assert_eq!(rl.calls, 30);
            assert_eq!(rl.window, Duration::from_secs(15));
        }
        other => panic!("expected Ok(Some(...)), got is_ok={}", other.is_ok()),
    }
}

#[test]
fn tool_call_rate_missing_slash_errors() {
    assert!(parse_tool_call_rate("30").is_err());
}

#[test]
fn tool_call_rate_zero_parts_error() {
    assert!(parse_tool_call_rate("0/60").is_err());
    assert!(parse_tool_call_rate("60/0").is_err());
}

#[test]
fn tool_call_rate_non_integer_errors() {
    assert!(parse_tool_call_rate("abc/60").is_err());
    assert!(parse_tool_call_rate("60/xyz").is_err());
}

#[test]
fn session_tool_call_max_none_disables() {
    match parse_session_tool_call_max("none") {
        Ok(None) => {}
        other => panic!("expected Ok(None), got is_ok={}", other.is_ok()),
    }
}

#[test]
fn session_tool_call_max_positive_parses() {
    match parse_session_tool_call_max("42") {
        Ok(Some(n)) => assert_eq!(n, 42),
        other => panic!("expected Ok(Some(42)), got is_ok={}", other.is_ok()),
    }
}

#[test]
fn session_tool_call_max_zero_errors() {
    assert!(parse_session_tool_call_max("0").is_err());
}

#[test]
fn session_tool_call_max_non_integer_errors() {
    assert!(parse_session_tool_call_max("abc").is_err());
}

#[test]
fn append_stdin_aux_wraps_content() {
    let out = append_stdin_aux("summarise".to_string(), "the quick brown fox");
    assert_eq!(
        out,
        "summarise\n\n--- stdin ---\nthe quick brown fox\n--- end stdin ---"
    );
}

#[test]
fn rates_are_refused_in_words() {
    let message = |raw| parse_tool_call_rate(raw).err().unwrap();
    assert!(message("30").contains("30"));
    assert!(message("abc/60").contains("invalid digit found in string"));
    assert_eq!(
        message("0/60"),
        "--tool-call-rate calls and window must both be positive (use `none` to disable)"
    );
    let message = parse_session_tool_call_max("abc").err().unwrap();
    assert!(message.starts_with("--session-tool-call-max must be a non-negative integer or `none` (got "));
    assert!(message.contains("abc"));
}

#[test]
fn grants_are_read() {
    assert_eq!(parse_grant_request(None), Ok(GrantRequest::Absent));
    assert_eq!(parse_grant_request(Some("oneshot")), Ok(GrantRequest::Oneshot));
    assert_eq!(parse_grant_request(Some("session")), Ok(GrantRequest::Session));
    assert_eq!(parse_grant_request(Some("workspace")), Ok(GrantRequest::Workspace));
    assert_eq!(
        parse_grant_request(Some("all")),
        Err("--grant must be 'oneshot', 'session', or 'workspace', got 'all'".to_string())
    );
}

#[test]
fn standard_input_must_be_short_text() {
    assert_eq!(stdin_auxiliary(b""), Ok(None));
    assert_eq!(stdin_auxiliary("h\u{e9}llo\n".as_bytes()), Ok(Some("h\u{e9}llo\n".to_string())));
    assert!(stdin_auxiliary(b"a\xff").is_err());
    let most = vec![b'x'; MAX_STDIN_BYTES];
    assert_eq!(stdin_auxiliary(&most).unwrap().unwrap().len(), MAX_STDIN_BYTES);
    let more = vec![b'x'; MAX_STDIN_BYTES + 1];
    assert_eq!(
        stdin_auxiliary(&more),
        Err(format!(
            "standard input exceeded {MAX_STDIN_BYTES} bytes; paste a smaller fragment"
        ))
    );
}
