//! The transport: requests, responses and their events.
use std::sync::{Arc, Mutex};

use attini::deepseek::{
    encode_chat_request, translate_sse_event, ReadNext, ResponseStream, SecretString, StreamEvent,
    TransportError, TransportMetrics, DEEPSEEK_HOST, DEEPSEEK_PATH, DEEPSEEK_PORT,
};
use attini::sansio::sse::{SseError, SseEvent};

#[test]
fn secret_string_debug_output_redacts_value() {
    let key = SecretString::new("sk-super-secret".to_string());
    let debug = key.debug_text();
    assert!(
        !debug.contains("sk-super-secret"),
        "raw secret leaked: {debug}"
    );
    assert_eq!(debug, "<redacted>");
    assert_eq!(key.expose(), "sk-super-secret");
}

#[test]
fn translate_content_delta_emits_stream_event() {
    let mut done = false;
    let out = translate_sse_event(
        SseEvent::Message {
            data: r#"{"choices":[{"delta":{"content":"hi"}}]}"#.to_string(),
        },
        &mut done,
    )
    .expect("translate");
    assert_eq!(out, vec![StreamEvent::ContentDelta("hi".to_string())]);
    assert!(!done);
}

#[test]
fn translate_reasoning_delta_emits_stream_event() {
    let mut done = false;
    let out = translate_sse_event(
        SseEvent::Message {
            data: r#"{"choices":[{"delta":{"reasoning_content":"think"}}]}"#.to_string(),
        },
        &mut done,
    )
    .expect("translate");
    assert_eq!(out, vec![StreamEvent::ReasoningDelta("think".to_string())]);
    assert!(!done);
}

#[test]
fn translate_finish_reason_emits_finish() {
    let mut done = false;
    let out = translate_sse_event(
        SseEvent::Message {
            data: r#"{"choices":[{"delta":{},"finish_reason":"stop"}]}"#.to_string(),
        },
        &mut done,
    )
    .expect("translate");
    assert_eq!(
        out,
        vec![StreamEvent::Finish {
            reason: Some("stop".to_string())
        }]
    );
}

#[test]
fn translate_done_sets_stream_done_flag() {
    let mut done = false;
    let out = translate_sse_event(
        SseEvent::Message {
            data: "[DONE]".to_string(),
        },
        &mut done,
    )
    .expect("translate");
    assert!(out.is_empty());
    assert!(done);
}

#[test]
fn translate_tool_call_deltas_expand_into_stream_events() {
    let mut done = false;
    let payload = r#"{"choices":[{"delta":{"tool_calls":[
        {"index":0,"id":"c0","function":{"name":"list","arguments":"{\"pa"}},
        {"index":1,"id":"c1","function":{"name":"read","arguments":"{\"pa"}}
    ]}}]}"#;
    let out = translate_sse_event(
        SseEvent::Message {
            data: payload.to_string(),
        },
        &mut done,
    )
    .expect("translate");
    assert_eq!(
        out,
        vec![
            StreamEvent::ToolCallDelta {
                index: 0,
                id: Some("c0".to_string()),
                function_name: Some("list".to_string()),
                arguments_fragment: Some(r#"{"pa"#.to_string()),
            },
            StreamEvent::ToolCallDelta {
                index: 1,
                id: Some("c1".to_string()),
                function_name: Some("read".to_string()),
                arguments_fragment: Some(r#"{"pa"#.to_string()),
            },
        ]
    );
}

#[test]
fn translate_tool_call_fragment_without_id_still_emits() {
    let mut done = false;
    let payload = r#"{"choices":[{"delta":{"tool_calls":[{"index":0,"function":{"arguments":"th\"}"}}]}}]}"#;
    let out = translate_sse_event(
        SseEvent::Message {
            data: payload.to_string(),
        },
        &mut done,
    )
    .expect("translate");
    assert_eq!(
        out,
        vec![StreamEvent::ToolCallDelta {
            index: 0,
            id: None,
            function_name: None,
            arguments_fragment: Some(r#"th"}"#.to_string()),
        }]
    );
}

#[test]
fn translate_comment_is_surfaced() {
    let mut done = false;
    let out = translate_sse_event(SseEvent::Comment("ping".to_string()), &mut done)
        .expect("translate");
    assert_eq!(out, vec![StreamEvent::Comment("ping".to_string())]);
}

#[test]
fn transport_metrics_default_is_all_zero() {
    let m = TransportMetrics::default();
    assert_eq!(m.requests_started.get(), 0);
    assert_eq!(m.requests_completed_ok.get(), 0);
    assert_eq!(m.errors_io.get(), 0);
    assert_eq!(m.errors_tls.get(), 0);
    assert_eq!(m.errors_http_encode.get(), 0);
    assert_eq!(m.errors_http_decode.get(), 0);
    assert_eq!(m.errors_http_status.get(), 0);
    assert_eq!(m.errors_sse.get(), 0);
    assert_eq!(m.errors_payload.get(), 0);
    assert_eq!(m.errors_channel_closed.get(), 0);
    assert_eq!(m.errors_server_closed_before_done.get(), 0);
    assert_eq!(m.bytes_written.get(), 0);
    assert_eq!(m.bytes_read.get(), 0);
}

#[test]
fn transport_metrics_record_error_maps_each_runtime_variant() {
    let mut m = TransportMetrics::default();
    m.record_error(&TransportError::Io("x".to_string()));
    m.record_error(&TransportError::Tls("x".to_string()));
    m.record_error(&TransportError::HttpEncode("x".to_string()));
    m.record_error(&TransportError::HttpDecode("x".to_string()));
    m.record_error(&TransportError::UnexpectedStatus { status: 500 });
    m.record_error(&TransportError::Sse(SseError::InvalidUtf8));
    m.record_error(&TransportError::Payload("bad".to_string()));
    m.record_error(&TransportError::ChannelClosed);
    m.record_error(&TransportError::ServerClosedBeforeDone);
    assert_eq!(m.errors_io.get(), 1);
    assert_eq!(m.errors_tls.get(), 1);
    assert_eq!(m.errors_http_encode.get(), 1);
    assert_eq!(m.errors_http_decode.get(), 1);
    assert_eq!(m.errors_http_status.get(), 1);
    assert_eq!(m.errors_sse.get(), 1);
    assert_eq!(m.errors_payload.get(), 1);
    assert_eq!(m.errors_channel_closed.get(), 1);
    assert_eq!(m.errors_server_closed_before_done.get(), 1);
}

#[test]
fn transport_metrics_record_error_ignores_setup_variants() {
    let mut m = TransportMetrics::default();
    m.record_error(&TransportError::MissingApiKey);
    m.record_error(&TransportError::Config("x".to_string()));
    m.record_error(&TransportError::InvalidHost("x".to_string()));
    // All runtime error counters must still be 0.
    assert_eq!(m.errors_io.get(), 0);
    assert_eq!(m.errors_tls.get(), 0);
    assert_eq!(m.errors_http_encode.get(), 0);
    assert_eq!(m.errors_http_decode.get(), 0);
    assert_eq!(m.errors_http_status.get(), 0);
    assert_eq!(m.errors_sse.get(), 0);
    assert_eq!(m.errors_payload.get(), 0);
    assert_eq!(m.errors_channel_closed.get(), 0);
    assert_eq!(m.errors_server_closed_before_done.get(), 0);
}

#[test]
fn arc_wrapped_transport_metrics_are_shared_across_clones() {
    let shared: Arc<Mutex<TransportMetrics>> = Arc::new(Mutex::new(TransportMetrics::default()));
    let cloned = shared.clone();
    cloned.lock().unwrap().requests_started.inc();
    cloned.lock().unwrap().bytes_written.add(1024);
    // The first handle sees the same counters.
    assert_eq!(shared.lock().unwrap().requests_started.get(), 1);
    assert_eq!(shared.lock().unwrap().bytes_written.get(), 1024);
    // Explicit deep snapshot detaches from the Arc.
    let snapshot = shared.lock().unwrap().clone();
    cloned.lock().unwrap().requests_started.inc();
    assert_eq!(shared.lock().unwrap().requests_started.get(), 2);
    assert_eq!(snapshot.requests_started.get(), 1);
}

#[test]
fn translate_empty_content_delta_is_dropped() {
    // The first streamed chunk from OpenAI-compatible APIs typically
    // carries an empty content string alongside the assistant role;
    // there is no user-visible token to emit in that case.
    let mut done = false;
    let payload = r#"{"choices":[{"delta":{"content":""}}]}"#.to_string();
    let out =
        translate_sse_event(SseEvent::Message { data: payload }, &mut done).expect("translate");
    assert!(out.is_empty(), "unexpected events: {out:?}");
}

fn chunked(body: &str) -> Vec<u8> {
    format!("{:x}\r\n{}\r\n", body.len(), body).into_bytes()
}

#[test]
fn a_request_is_written_with_its_fields() {
    let bytes = encode_chat_request(
        DEEPSEEK_PATH,
        DEEPSEEK_HOST,
        DEEPSEEK_PORT,
        "SECRET-REDACTED",
        "{}",
    )
    .expect("encodes");
    let text = String::from_utf8(bytes).expect("text");
    assert!(text.starts_with("POST /chat/completions HTTP/1.1\r\nHost: api.deepseek.com\r\n"));
    assert!(text.contains("\r\nAuthorization: Bearer SECRET-REDACTED\r\n"));
    assert!(text.contains("\r\nAccept: text/event-stream\r\n"));
    assert!(text.contains("\r\nContent-Type: application/json\r\n"));
    assert!(text.contains("\r\nConnection: close\r\n"));
    assert!(text.contains("\r\nContent-Length: 2\r\n"));
    assert!(text.ends_with("\r\n\r\n{}"));
}

#[test]
fn an_unusual_port_stands_in_the_host_field() {
    let bytes = encode_chat_request("/p", "h", 8443, "k", "").expect("encodes");
    let text = String::from_utf8(bytes).expect("text");
    assert!(text.contains("\r\nHost: h:8443\r\n"));
}

#[test]
fn bad_fields_are_refused() {
    let err = encode_chat_request("/p", "h", 443, "k\r\nx: y", "").expect_err("refused");
    assert!(matches!(err, TransportError::HttpEncode(_)));
    let err = encode_chat_request("no target", "h", 443, "k", "").expect_err("refused");
    assert!(matches!(err, TransportError::HttpEncode(_)));
}

#[test]
fn a_response_comes_in_piece_by_piece() {
    let mut s = ResponseStream::new();
    let (events, next) = s.receive(b"HTTP/1.1 200 OK\r\nTransfer-Encoding: chu");
    assert!(events.is_empty());
    assert_eq!(next, Ok(ReadNext::More));
    let mut bytes = b"nked\r\n\r\n".to_vec();
    bytes.extend(chunked(
        "data: {\"choices\":[{\"delta\":{\"content\":\"hi\"}}]}\n\n: ping\n\nda",
    ));
    let (events, next) = s.receive(&bytes);
    assert_eq!(
        events,
        vec![
            StreamEvent::ContentDelta("hi".to_string()),
            StreamEvent::Comment("ping".to_string())
        ]
    );
    assert_eq!(next, Ok(ReadNext::More));
    let (events, next) = s.receive(&chunked("ta: [DONE]\n\n"));
    assert!(events.is_empty());
    assert_eq!(next, Ok(ReadNext::Finished));
}

#[test]
fn a_response_that_breaks_off_is_an_error() {
    let mut s = ResponseStream::new();
    let (_, next) = s.receive(b"");
    assert_eq!(next, Err(TransportError::ServerClosedBeforeDone));
    let mut s = ResponseStream::new();
    let body = "data: {\"choices\":[{\"delta\":{\"content\":\"hi\"}}]}\n\n";
    let head = format!("HTTP/1.1 200 OK\r\nContent-Length: {}\r\n\r\n", body.len());
    let (events, next) = s.receive(format!("{head}{body}").as_bytes());
    assert_eq!(events, vec![StreamEvent::ContentDelta("hi".to_string())]);
    assert_eq!(next, Err(TransportError::ServerClosedBeforeDone));
}

#[test]
fn an_error_status_is_an_error() {
    let mut s = ResponseStream::new();
    let (events, next) = s.receive(b"HTTP/1.1 401 Unauthorized\r\nContent-Length: 0\r\n\r\n");
    assert!(events.is_empty());
    assert_eq!(next, Err(TransportError::UnexpectedStatus { status: 401 }));
}

#[test]
fn what_is_no_http_is_an_error() {
    let mut s = ResponseStream::new();
    let (_, next) = s.receive(b"hello\r\n\r\n");
    assert!(matches!(next, Err(TransportError::HttpDecode(_))));
    let mut s = ResponseStream::new();
    let (_, next) = s.receive(&vec![b'x'; 64 * 1024 + 1]);
    assert!(matches!(next, Err(TransportError::HttpDecode(_))));
    let mut s = ResponseStream::new();
    let (_, next) = s.receive(&vec![b'x'; 64 * 1024]);
    assert_eq!(next, Ok(ReadNext::More));
}

#[test]
fn broken_events_come_behind_whole_ones() {
    let mut s = ResponseStream::new();
    let mut bytes = b"HTTP/1.1 200 OK\r\nTransfer-Encoding: chunked\r\n\r\n".to_vec();
    bytes.extend(chunked(
        "data: {\"choices\":[{\"delta\":{\"content\":\"a\"}}]}\n\ndata: {oops\n\n",
    ));
    let (events, next) = s.receive(&bytes);
    assert_eq!(events, vec![StreamEvent::ContentDelta("a".to_string())]);
    assert!(matches!(next, Err(TransportError::Payload(_))));
    let mut s = ResponseStream::new();
    let mut bytes = b"HTTP/1.1 200 OK\r\nTransfer-Encoding: chunked\r\n\r\n".to_vec();
    bytes.extend(b"8\r\ndata: \xff\n\r\n".to_vec());
    let (_, next) = s.receive(&bytes);
    assert_eq!(next, Err(TransportError::Sse(SseError::InvalidUtf8)));
}

#[test]
fn each_end_is_counted_once() {
    let mut m = TransportMetrics::default();
    m.record_outcome(&Ok(()));
    m.record_outcome(&Err(TransportError::ChannelClosed));
    assert_eq!(m.requests_completed_ok.get(), 1);
    assert_eq!(m.errors_channel_closed.get(), 1);
    assert_eq!(m.errors_io.get(), 0);
}

#[test]
fn errors_say_what_happened() {
    assert_eq!(
        TransportError::MissingApiKey.to_string(),
        "environment variable DEEPSEEK_API_KEY is not set or is empty"
    );
    assert_eq!(
        TransportError::UnexpectedStatus { status: 500 }.to_string(),
        "server returned unexpected HTTP status 500"
    );
    assert_eq!(
        TransportError::Sse(SseError::LineTooLong { limit: 8 }).to_string(),
        "SSE decode error: SSE line exceeded 8-byte limit"
    );
    assert_eq!(TransportError::Io("x".to_string()).to_string(), "I/O error: x");
}
