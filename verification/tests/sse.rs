//! How an event stream is cut into events.
use attini::sansio::sse::{SseDecoder, SseError, SseEvent};

fn drain(decoder: &mut SseDecoder) -> Result<Vec<SseEvent>, SseError> {
    let mut events = Vec::new();
    loop {
        match decoder.next_event()? {
            Some(e) => events.push(e),
            None => return Ok(events),
        }
    }
}

#[test]
fn single_data_line_dispatches_on_empty_line() {
    let mut d = SseDecoder::new();
    d.feed(b"data: hello\n\n");
    assert_eq!(
        drain(&mut d).expect("drain"),
        vec![SseEvent::Message {
            data: "hello".to_string()
        }]
    );
}

#[test]
fn multi_data_lines_joined_with_newline() {
    let mut d = SseDecoder::new();
    d.feed(b"data: a\ndata: b\ndata: c\n\n");
    assert_eq!(
        drain(&mut d).expect("drain"),
        vec![SseEvent::Message {
            data: "a\nb\nc".to_string()
        }]
    );
}

#[test]
fn empty_data_field_dispatches_empty_message() {
    let mut d = SseDecoder::new();
    d.feed(b"data:\n\n");
    assert_eq!(
        drain(&mut d).expect("drain"),
        vec![SseEvent::Message {
            data: String::new()
        }]
    );
}

#[test]
fn comment_line_is_surfaced() {
    let mut d = SseDecoder::new();
    d.feed(b": keep-alive\n");
    assert_eq!(
        drain(&mut d).expect("drain"),
        vec![SseEvent::Comment("keep-alive".to_string())]
    );
}

#[test]
fn comment_without_space_prefix() {
    let mut d = SseDecoder::new();
    d.feed(b":ping\n");
    assert_eq!(
        drain(&mut d).expect("drain"),
        vec![SseEvent::Comment("ping".to_string())]
    );
}

#[test]
fn unknown_field_is_ignored() {
    let mut d = SseDecoder::new();
    d.feed(b"event: message\ndata: x\n\n");
    assert_eq!(
        drain(&mut d).expect("drain"),
        vec![SseEvent::Message {
            data: "x".to_string()
        }]
    );
}

#[test]
fn done_sentinel_is_returned_as_regular_data() {
    let mut d = SseDecoder::new();
    d.feed(b"data: [DONE]\n\n");
    assert_eq!(
        drain(&mut d).expect("drain"),
        vec![SseEvent::Message {
            data: "[DONE]".to_string()
        }]
    );
}

#[test]
fn empty_line_between_events_does_not_produce_stray_events() {
    let mut d = SseDecoder::new();
    d.feed(b"\n\n\ndata: x\n\n");
    assert_eq!(
        drain(&mut d).expect("drain"),
        vec![SseEvent::Message {
            data: "x".to_string()
        }]
    );
}

#[test]
fn crlf_line_endings_are_supported() {
    let mut d = SseDecoder::new();
    d.feed(b"data: hi\r\n\r\n");
    assert_eq!(
        drain(&mut d).expect("drain"),
        vec![SseEvent::Message {
            data: "hi".to_string()
        }]
    );
}

#[test]
fn lone_cr_line_endings_are_supported() {
    let mut d = SseDecoder::new();
    // A non-`\r` byte after each `\r` lets the decoder confirm the
    // terminator immediately; a stream that ends on a lone `\r`
    // waits for more data because it might turn into `\r\n`.
    d.feed(b"data: hi\r\rdata: bye\r\n\r\n");
    assert_eq!(
        drain(&mut d).expect("drain"),
        vec![
            SseEvent::Message {
                data: "hi".to_string()
            },
            SseEvent::Message {
                data: "bye".to_string()
            },
        ]
    );
}

#[test]
fn cr_at_buffer_boundary_waits_for_next_byte() {
    let mut d = SseDecoder::new();
    d.feed(b"data: hi\r");
    assert_eq!(d.next_event().expect("no-error"), None);
    d.feed(b"\n\r\n");
    assert_eq!(
        drain(&mut d).expect("drain"),
        vec![SseEvent::Message {
            data: "hi".to_string()
        }]
    );
}

#[test]
fn invalid_utf8_returns_error_and_sticks() {
    let mut d = SseDecoder::new();
    d.feed(b"data: \xff\xfe\n\n");
    let err = d.next_event().expect_err("first call returns error");
    assert_eq!(err, SseError::InvalidUtf8);
    let err2 = d
        .next_event()
        .expect_err("subsequent call returns same error");
    assert_eq!(err2, SseError::InvalidUtf8);
}

#[test]
fn line_too_long_returns_error_before_terminator() {
    let mut d = SseDecoder::with_max_line_bytes(8);
    d.feed(b"data: 0123456789\n\n");
    let err = d.next_event().expect_err("length limit breached");
    assert_eq!(err, SseError::LineTooLong { limit: 8 });
}

#[test]
fn split_at_every_position_produces_same_events() {
    let input = b"data: hello\ndata: world\n\n: keep\n\ndata: end\n\n";
    let mut baseline = SseDecoder::new();
    baseline.feed(input);
    let expected = drain(&mut baseline).expect("baseline");

    for split in 0..=input.len() {
        let mut d = SseDecoder::new();
        let mut got = Vec::new();
        d.feed(&input[..split]);
        while let Some(event) = d.next_event().expect("first-half drain") {
            got.push(event);
        }
        d.feed(&input[split..]);
        while let Some(event) = d.next_event().expect("second-half drain") {
            got.push(event);
        }
        assert_eq!(got, expected, "diverged at split {split}");
    }
}

#[test]
fn a_line_at_the_limit_may_end_in_a_carriage_return_of_the_next_chunk() {
    let mut d = SseDecoder::with_max_line_bytes(8);
    d.feed(b"data: hi\r");
    assert_eq!(d.next_event(), Ok(None));
    d.feed(b"\n\r\n");
    assert_eq!(
        drain(&mut d).expect("drain"),
        vec![SseEvent::Message {
            data: "hi".to_string()
        }]
    );
}

#[test]
fn a_line_over_the_limit_fails_however_it_is_cut() {
    let mut whole = SseDecoder::with_max_line_bytes(8);
    whole.feed(b"data: hi!\r\n\r\n");
    assert!(drain(&mut whole).is_err());
    let mut cut = SseDecoder::with_max_line_bytes(8);
    cut.feed(b"data: hi!\r");
    assert!(drain(&mut cut).is_err());
}
