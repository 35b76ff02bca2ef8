//! Output of child processes.
use attini::child_output::{
    collect_output, finish_line, start_line, write_display, DisplayRateLimiter, Pump, StreamKind,
    COMMAND_MAX_STREAM_BYTES,
};
use attini::time::{Duration, Instant};

const START: Instant = Instant { nanos: 0 };

fn write_bytes(limiter: &mut DisplayRateLimiter, sink: &mut Vec<u8>, bytes: &[u8]) {
    limiter.write(sink, bytes, START);
}

#[test]
fn limiter_caps_display_at_window_budget() {
    let mut limiter = DisplayRateLimiter::new(4, Duration::from_secs(1), START);
    let mut sink = Vec::new();
    let payload = b"abcdefghij";
    write_bytes(&mut limiter, &mut sink, payload);
    assert_eq!(sink.len(), 4, "first window caps at budget");
    // The remainder of the chunk is dropped, not carried over.
    write_bytes(&mut limiter, &mut sink, payload);
    assert_eq!(sink.len(), 4, "same window still exhausted");
}

#[test]
fn limiter_allows_up_to_budget_across_chunks() {
    let mut limiter = DisplayRateLimiter::new(5, Duration::from_secs(1), START);
    let mut sink = Vec::new();
    write_bytes(&mut limiter, &mut sink, b"ab");
    write_bytes(&mut limiter, &mut sink, b"cde");
    write_bytes(&mut limiter, &mut sink, b"fgh");
    assert_eq!(sink, b"abcde", "partial chunk fills the remaining budget");
}

// -----------------------------------------------------------------
// Separator lines and colouring
// -----------------------------------------------------------------

#[test]
fn start_line_contains_pid() {
    assert_eq!(start_line(12345), "[child] started (pid 12345)");
}

#[test]
fn write_display_wraps_in_colour_when_enabled() {
    let mut sink = Vec::new();
    write_display(&mut sink, StreamKind::Stdout, true, b"abc");
    assert_eq!(sink, b"\x1b[2mabc\x1b[0m");

    let mut sink = Vec::new();
    write_display(&mut sink, StreamKind::Stderr, true, b"abc");
    assert_eq!(sink, b"\x1b[33mabc\x1b[0m");
}

#[test]
fn write_display_is_raw_when_colour_disabled() {
    let mut sink = Vec::new();
    write_display(&mut sink, StreamKind::Stdout, false, b"abc");
    write_display(&mut sink, StreamKind::Stderr, false, b"def");
    assert_eq!(sink, b"abcdef", "no ANSI codes outside a terminal");
}

#[test]
fn limiter_allow_returns_displayable_count() {
    let mut limiter = DisplayRateLimiter::new(5, Duration::from_secs(1), START);
    assert_eq!(limiter.allow(b"ab", START), 2);
    assert_eq!(limiter.allow(b"cdefgh", START), 3, "fills the remaining budget");
    assert_eq!(limiter.allow(b"ij", START), 0, "budget exhausted");
}

#[test]
fn limiter_resets_after_window_elapses() {
    let mut limiter = DisplayRateLimiter::new(4, Duration::from_millis(1), START);
    let mut sink = Vec::new();
    limiter.write(&mut sink, b"aaaa", START);
    let later = START.checked_add(Duration::from_millis(5)).unwrap();
    limiter.write(&mut sink, b"bbbb", later);
    assert_eq!(sink.len(), 8, "a new window restores the budget");
}

/// Feeds a payload in chunks, as a reader would hand them over.
fn pump(payload: &[u8], limiter: DisplayRateLimiter) -> (Pump, Vec<u8>) {
    let mut pump = Pump::new(StreamKind::Stdout, false, limiter);
    let mut shown = Vec::new();
    for chunk in payload.chunks(4096) {
        shown.extend(pump.take_in(chunk, START));
    }
    (pump, shown)
}

#[test]
fn pump_accumulates_full_output_under_small_budget() {
    // A tiny budget must not truncate the accumulated bytes.
    let limiter = DisplayRateLimiter::new(1, Duration::from_secs(1), START);
    let (pump, shown) = pump(&b"x".repeat(10 * 1024), limiter);
    assert_eq!(pump.kept().len(), 10 * 1024, "accumulation is never rate-capped");
    assert!(!pump.truncated(), "10 KiB is below the stream cap");
    assert!(shown.is_empty(), "nothing is shown outside a terminal");
}

#[test]
fn pump_truncates_accumulation_at_stream_cap() {
    let payload = vec![b'x'; COMMAND_MAX_STREAM_BYTES + 1];
    let limiter = DisplayRateLimiter::new(COMMAND_MAX_STREAM_BYTES, Duration::from_secs(1), START);
    let (pump, shown) = pump(&payload, limiter);
    assert_eq!(
        pump.kept().len(),
        COMMAND_MAX_STREAM_BYTES,
        "retained output hits the cap"
    );
    assert!(pump.truncated());
    assert!(shown.is_empty());
}

#[test]
fn finish_line_reports_exit_code_and_duration() {
    assert_eq!(finish_line(Some(0), "1.2"), "[child] finished (exit 0, 1.2s)");
    assert_eq!(finish_line(Some(-3), "0.1"), "[child] finished (exit -3, 0.1s)");
}

#[test]
fn finish_line_reports_signal_without_exit_code() {
    let line = finish_line(None, "0.0");
    assert!(
        line.starts_with("[child] finished (signal, 0.0s)"),
        "{line}"
    );
}

#[test]
fn chunks_do_not_matter_for_what_is_kept() {
    let payload: Vec<u8> = (0..20_000u32).map(|i| (i % 251) as u8).collect();
    let limiter = || DisplayRateLimiter::new_per_second(START);
    let mut whole = Pump::new(StreamKind::Stderr, true, limiter());
    whole.take_in(&payload, START);
    let mut parts = Pump::new(StreamKind::Stderr, true, limiter());
    for chunk in payload.chunks(7) {
        parts.take_in(chunk, START);
    }
    assert_eq!(whole.kept(), parts.kept());
    assert_eq!(whole.kept(), &payload);
}

#[test]
fn coloured_chunks_are_wrapped_one_by_one() {
    let limiter = DisplayRateLimiter::new(3, Duration::from_secs(1), START);
    let mut pump = Pump::new(StreamKind::Stderr, true, limiter);
    assert_eq!(pump.take_in(b"ab", START), b"\x1b[33mab\x1b[0m");
    assert_eq!(pump.take_in(b"cd", START), b"\x1b[33mc\x1b[0m");
    assert!(pump.take_in(b"ef", START).is_empty(), "nothing is left to show");
    assert_eq!(pump.kept(), b"abcdef");
}

#[test]
fn outputs_are_decoded_and_flagged() {
    let limiter = || DisplayRateLimiter::new_per_second(START);
    let mut out = Pump::new(StreamKind::Stdout, false, limiter());
    out.take_in(b"ok\xff\n", START);
    let mut err = Pump::new(StreamKind::Stderr, false, limiter());
    err.take_in(&vec![b'e'; COMMAND_MAX_STREAM_BYTES + 5], START);
    let all = collect_output(out, err, Some(3), Duration::from_millis(1250));
    assert_eq!(all.stdout, "ok\u{fffd}\n");
    assert_eq!(all.stderr.len(), COMMAND_MAX_STREAM_BYTES);
    assert_eq!(all.exit_code, Some(3));
    assert_eq!(all.duration.as_millis(), 1250);
    assert!(all.truncated);
}
