//! The server for one client.
use attini::deepseek::{StreamEvent, TransportError};
use attini::json::JsonDoc;
use attini::rpc::server::{
    command_outcome, parse_rows_cols, parse_string_field, patch_outcome, pre_event_record,
    read_rows_cols, status_str, translate_stream_event, Output, RpcSession, ToolFeedback,
};
use attini::rpc::transcript::{ApprovalKind, SessionEndReason, TranscriptRecord};
use attini::rpc::wire::LineError;
use attini::sansio::agent::{
    CommandError, CommandOutputStream, Event, PatchError, PatchPreview, PreviewHash, RequestId,
    Status, ToolExecutionError, ToolOutcome,
};
use attini::session::ApprovalDecision;

fn session() -> RpcSession {
    RpcSession::new("m", "/w")
}

fn reply(id: u64, result: &str) -> Output {
    Output::Reply {
        id: Some(id),
        line: format!("{{\"jsonrpc\":\"2.0\",\"id\":{id},\"result\":{result}}}\n"),
    }
}

fn refusal(id: Option<u64>, code: i64, message: &str) -> Output {
    let shown = id.map_or("null".to_string(), |id| id.to_string());
    Output::Reply {
        id,
        line: format!(
            "{{\"jsonrpc\":\"2.0\",\"id\":{shown},\"error\":{{\"code\":{code},\"message\":\"{message}\"}}}}\n"
        ),
    }
}

fn request(s: &mut RpcSession, id: u64, method: &str, params: &str) -> Vec<Output> {
    let line = format!(r#"{{"jsonrpc":"2.0","id":{id},"method":"{method}","params":{params}}}"#);
    s.handle_client_line(&line, 1)
}

fn notice(outputs: &[Output], method: &str) -> bool {
    outputs
        .iter()
        .any(|o| matches!(o, Output::Notice { method: m, .. } if *m == method))
}

/// A session in which the model calls a tool, and the id of the request.
fn with_call(name: &str, args: &str) -> (RpcSession, RequestId, Vec<Output>) {
    let mut s = session();
    let outputs = request(&mut s, 1, "submit_prompt", r#"{"text":"hi"}"#);
    let id = outputs
        .iter()
        .find_map(|o| match o {
            Output::StartStream { id, .. } => Some(*id),
            _ => None,
        })
        .expect("a stream starts");
    s.on_stream_event(
        StreamEvent::ToolCallDelta {
            index: 0,
            id: Some("c1".to_string()),
            function_name: Some(name.to_string()),
            arguments_fragment: Some(args.to_string()),
        },
        2,
    );
    let outputs = s.on_stream_event(
        StreamEvent::Finish { reason: Some("tool_calls".to_string()) },
        3,
    );
    (s, id, outputs)
}

#[test]
fn prompts_start_a_request() {
    let mut s = session();
    let outputs = request(&mut s, 7, "submit_prompt", r#"{"text":"hi"}"#);
    assert_eq!(outputs.last(), Some(&reply(7, r#"{"accepted":true}"#)));
    assert!(notice(&outputs, "event/user_message"));
    assert!(outputs.iter().any(|o| matches!(o, Output::StartStream { request, .. }
        if request.model == "m" && request.messages.len() == 1)));
    let outputs = request(&mut s, 8, "submit_prompt", r#"{"text":"again"}"#);
    assert_eq!(outputs.last(), Some(&reply(8, r#"{"accepted":false}"#)));
    assert!(!outputs.iter().any(|o| matches!(o, Output::StartStream { .. })));
}

#[test]
fn each_request_is_answered_once() {
    let answers = |outputs: &[Output], id: u64| {
        outputs
            .iter()
            .filter(|o| match o {
                Output::Reply { id: i, .. } => *i == Some(id),
                Output::Grid { id: i, .. } | Output::Metrics { id: i, .. } => *i == id,
                _ => false,
            })
            .count()
    };
    for (method, params) in [
        ("submit_prompt", r#"{"text":"x"}"#),
        ("submit_prompt", "{}"),
        ("approve", r#"{"call_id":"c"}"#),
        ("reject", r#"{"call_id":"c"}"#),
        ("cancel", "null"),
        ("get_state", "null"),
        ("get_metrics", "null"),
        ("get_rendered_grid", r#"{"rows":5,"cols":20}"#),
        ("quit", "null"),
        ("fly", "null"),
    ] {
        let outputs = request(&mut session(), 3, method, params);
        assert_eq!(answers(&outputs, 3), 1, "{method}");
    }
}

#[test]
fn bad_requests_are_refused() {
    let mut s = session();
    assert_eq!(
        request(&mut s, 3, "fly", "null"),
        vec![refusal(Some(3), -32601, "method not found: fly")]
    );
    match &request(&mut s, 3, "submit_prompt", "{}")[..] {
        [Output::Reply { id: Some(3), line }] => assert!(line.contains("-32602"), "{line}"),
        other => panic!("{other:?}"),
    }
    match &s.handle_client_line("{", 1)[..] {
        [Output::Reply { id: None, line }] => assert!(line.contains("-32700"), "{line}"),
        other => panic!("{other:?}"),
    }
    assert_eq!(
        s.handle_incoming(Err(LineError::NoMessage("why".to_string())), 1),
        vec![refusal(None, -32700, "why")]
    );
    assert_eq!(
        s.handle_incoming(Err(LineError::BadId("why".to_string())), 1),
        vec![refusal(None, -32600, "why")]
    );
    for id in ["\"x\"", "null", "-1", "1.5"] {
        let line = format!(r#"{{"jsonrpc":"2.0","id":{id},"method":"cancel"}}"#);
        match &s.handle_client_line(&line, 1)[..] {
            [Output::Reply { id: None, line }] => assert!(line.contains("-32600"), "{line}"),
            other => panic!("{other:?}"),
        }
    }
    let ignored = s.handle_client_line(r#"{"jsonrpc":"2.0","method":"cancel"}"#, 1);
    assert!(ignored.is_empty());
}

#[test]
fn quitting_answers_first() {
    assert_eq!(
        request(&mut session(), 3, "quit", "null"),
        vec![reply(3, "{}"), Output::Quit]
    );
    assert_eq!(
        RpcSession::session_end(SessionEndReason::UserQuit, 9),
        Output::Notice {
            method: "event/session_end",
            record: TranscriptRecord::SessionEnd { ts: 9, reason: SessionEndReason::UserQuit },
        }
    );
    assert_eq!(
        session().session_start("1.0", "/w", 4),
        Output::Notice {
            method: "event/session_start",
            record: TranscriptRecord::SessionStart {
                ts: 4,
                attini_version: "1.0".to_string(),
                model: "m".to_string(),
                workspace: "/w".to_string(),
            },
        }
    );
}

#[test]
fn reading_tools_run_at_once() {
    let (mut s, id, outputs) = with_call("read", r#"{"path":"a"}"#);
    assert!(outputs.iter().any(|o| matches!(o, Output::RunTool { request, call_id, .. }
        if *request == id && call_id == "c1")));
    let outputs = s.on_feedback(
        ToolFeedback::Result {
            request: id,
            call_id: "c1".to_string(),
            outcome: ToolOutcome::Success("text".to_string()),
        },
        5,
    );
    assert!(notice(&outputs, "event/tool_result"));
    assert!(outputs.iter().any(|o| matches!(o, Output::StartStream { .. })));
}

#[test]
fn commands_wait_for_the_client() {
    let (mut s, id, outputs) = with_call("command", r#"{"argv":["make"]}"#);
    assert!(outputs.iter().any(|o| matches!(
        o,
        Output::Notice {
            record: TranscriptRecord::ToolApprovalRequired { call_id, tool_kind: ApprovalKind::Command, .. },
            ..
        } if call_id == "c1"
    )));
    assert_eq!(s.agent().status(), Status::AwaitingApproval);
    assert_eq!(
        request(&mut s, 4, "approve", r#"{"call_id":"other"}"#),
        vec![reply(4, r#"{"applied":false}"#)]
    );
    let outputs = request(&mut s, 5, "approve", r#"{"call_id":"c1"}"#);
    assert_eq!(outputs.last(), Some(&reply(5, r#"{"applied":true}"#)));
    assert!(outputs.iter().any(|o| matches!(o, Output::StartCommand { call_id, command, .. }
        if call_id == "c1" && command.argv == vec!["make"])));
    assert!(outputs.iter().any(|o| matches!(
        o,
        Output::Notice {
            record: TranscriptRecord::ToolApproval { decision: ApprovalDecision::Approve, .. },
            ..
        }
    )));
    let outputs = s.on_feedback(
        ToolFeedback::CommandOutputChunk {
            request: id,
            call_id: "c1".to_string(),
            stream: CommandOutputStream::Stdout,
            bytes: b"out".to_vec(),
        },
        6,
    );
    assert!(notice(&outputs, "event/command_output_chunk"));
}

#[test]
fn rejected_commands_are_not_run() {
    let (mut s, _, _) = with_call("command", r#"{"argv":["make"]}"#);
    let outputs = request(&mut s, 5, "reject", r#"{"call_id":"c1"}"#);
    assert_eq!(outputs.last(), Some(&reply(5, r#"{"applied":true}"#)));
    assert!(!outputs.iter().any(|o| matches!(o, Output::StartCommand { .. })));
}

#[test]
fn patches_are_previewed_and_applied() {
    let args = r#"{"edits":[{"kind":"add","path":"a","content":"x"}]}"#;
    let (mut s, id, outputs) = with_call("patch", args);
    assert!(outputs.iter().any(|o| matches!(o, Output::PreviewPatch { .. })));
    let hashes = vec![PreviewHash { path: "a".to_string(), sha256: None }];
    let outputs = s.on_feedback(
        ToolFeedback::PatchPreviewReady {
            request: id,
            call_id: "c1".to_string(),
            preview_hashes: hashes,
            preview: PatchPreview {
                target_paths: vec!["a".to_string()],
                added_lines: 1,
                removed_lines: 0,
                edit_count: 1,
            },
        },
        5,
    );
    assert!(notice(&outputs, "event/patch_preview_ready"));
    let outputs = request(&mut s, 6, "approve", r#"{"call_id":"c1"}"#);
    assert!(outputs.iter().any(|o| matches!(o, Output::ApplyPatch { hashes, .. }
        if hashes.len() == 1)));
}

#[test]
fn failing_streams_are_reported() {
    let mut s = session();
    request(&mut s, 1, "submit_prompt", r#"{"text":"hi"}"#);
    let outputs = s.on_stream_error(&TransportError::MissingApiKey, 2);
    assert!(notice(&outputs, "event/transport_error"));
    s.on_stream_closed();
    assert_eq!(s.agent().status(), Status::Idle);
}

#[test]
fn cancelling_drops_the_stream() {
    let mut s = session();
    request(&mut s, 1, "submit_prompt", r#"{"text":"hi"}"#);
    let outputs = request(&mut s, 2, "cancel", "null");
    assert!(outputs.iter().any(|o| matches!(o, Output::DropStream)));
    assert_eq!(outputs.last(), Some(&reply(2, "{}")));
    assert_eq!(s.agent().status(), Status::Idle);
}

#[test]
fn parameters_are_read() {
    assert_eq!(parse_string_field(r#"{"a":"b"}"#, "a"), Ok("b".to_string()));
    assert!(parse_string_field(r#"{"a":1}"#, "a").is_err());
    assert!(parse_string_field("null", "a").is_err());
    assert_eq!(parse_rows_cols(r#"{"cols":2,"rows":1}"#), Ok((1, 2)));
    assert_eq!(
        parse_rows_cols(r#"{"rows":"1","cols":2}"#),
        Err("rows must be a u64".to_string())
    );
    let doc = JsonDoc::parse(r#"{"rows":3,"cols":4}"#).unwrap();
    assert_eq!(read_rows_cols(&doc), Ok((3, 4)));
}

#[test]
fn statuses_have_names() {
    assert_eq!(status_str(Status::Idle), "idle");
    let all = [
        Status::Idle,
        Status::AwaitingModel,
        Status::Streaming,
        Status::ToolRunning,
        Status::AwaitingApproval,
    ];
    let mut names: Vec<&str> = all.into_iter().map(status_str).collect();
    names.sort();
    names.dedup();
    assert_eq!(names.len(), 5);
}

#[test]
fn events_are_translated() {
    let id = RequestId::new(4);
    assert_eq!(
        translate_stream_event(StreamEvent::ContentDelta("a".to_string()), id),
        Some(Event::ContentDelta { request: id, text: "a".to_string() })
    );
    assert_eq!(translate_stream_event(StreamEvent::Comment("c".to_string()), id), None);
    assert!(pre_event_record(&Event::Timeout { request: id }, 1).len() <= 1);
    assert_eq!(
        patch_outcome(Ok(())),
        ToolOutcome::Success("{\"applied\":true}".to_string())
    );
    assert_eq!(
        patch_outcome(Err(PatchError::Rejected)),
        ToolOutcome::Failure(ToolExecutionError::Patch(PatchError::Rejected))
    );
    assert_eq!(
        command_outcome(Err("no".to_string())),
        ToolOutcome::Failure(ToolExecutionError::Command(CommandError::SpawnFailed {
            message: "no".to_string()
        }))
    );
}

#[test]
fn answers_are_one_line() {
    let mut s = session();
    for line in [
        "{\n",
        r#"{"jsonrpc":"2.0","id":1,"method":"a\nb"}"#,
        r#"{"jsonrpc":"2.0","id":1,"method":"submit_prompt","params":{"te\nxt":1}}"#,
        r#"{"jsonrpc":"2.0","id":1,"method":"get_state"}"#,
    ] {
        for output in s.handle_client_line(line, 1) {
            if let Output::Reply { line, .. } = output {
                assert_eq!(line.matches('\n').count(), 1);
                assert!(line.ends_with('\n'));
            }
        }
    }
}

#[test]
fn approved_calls_run_once() {
    let (mut s, _, _) = with_call("command", r#"{"argv":["make"]}"#);
    let starts = |outputs: &[Output]| {
        outputs
            .iter()
            .filter(|o| matches!(o, Output::StartCommand { .. }))
            .count()
    };
    let first = request(&mut s, 5, "approve", r#"{"call_id":"c1"}"#);
    assert_eq!(starts(&first), 1);
    let again = request(&mut s, 6, "approve", r#"{"call_id":"c1"}"#);
    assert_eq!(starts(&again), 0);
    assert_eq!(again, vec![reply(6, r#"{"applied":false}"#)]);
    let event = Event::ApproveToolCall { call_id: "c1".to_string() };
    assert_eq!(starts(&s.dispatch(event, 7)), 0);
}
