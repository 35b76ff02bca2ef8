//! The output of a child process: how much of it is kept for the tool result,
//! and how much of it is shown.
//!
//! Of each stream at most [`COMMAND_MAX_STREAM_BYTES`] are kept. The output is
//! shown on a terminal alone, up to so many bytes per second, in the colour of
//! its stream.
use vstd::prelude::*;
use vstd::string::*;

use crate::agent_cli::telling::holds_text;
use crate::text::{cat3, decimal, decimal_of, lossy, lossy_text, signed_decimal, signed_decimal_of};
use crate::time::{Duration, Instant};

verus! {

/// Bytes of a stream that are shown per second.
pub const STREAM_DISPLAY_BYTES_PER_SECOND: usize = 64 * 1024;

/// Bytes of a stream that are kept.
pub const COMMAND_MAX_STREAM_BYTES: usize = 256 * 1024;

/// Size of a single read from a stream.
pub const CHUNK_SIZE: usize = 4 * 1024;

pub const ANSI_DIM: &'static str = "\x1b[2m";

pub const ANSI_YELLOW: &'static str = "\x1b[33m";

pub const ANSI_RESET: &'static str = "\x1b[0m";

/// What is left of a child process.
#[derive(Debug, PartialEq, Eq)]
pub struct ChildOutput {
    pub stdout: String,
    pub stderr: String,
    /// Absent where a signal ended it.
    pub exit_code: Option<i32>,
    /// From its start until both streams ended.
    pub duration: Duration,
    /// Whether one of the streams was not kept whole.
    pub truncated: bool,
}

/// Puts together what is left of a child process. What its streams hold is
/// text, with replacement characters where it is not.
pub fn collect_output(
    stdout: Pump,
    stderr: Pump,
    exit_code: Option<i32>,
    duration: Duration,
) -> (r: ChildOutput)
    ensures
        r.stdout@ == lossy_text(stdout@.kept),
        r.stderr@ == lossy_text(stderr@.kept),
        r.exit_code == exit_code,
        r.duration == duration,
        r.truncated == (stdout@.truncated || stderr@.truncated),
{
    ChildOutput {
        stdout: lossy(stdout.accumulated.as_slice()),
        stderr: lossy(stderr.accumulated.as_slice()),
        exit_code,
        duration,
        truncated: stdout.truncated || stderr.truncated,
    }
}

/// The line above the output.
pub fn start_line(pid: u32) -> (r: String)
    ensures
        r@ == "[child] started (pid "@ + decimal(pid as nat) + ")"@,
{
    cat3("[child] started (pid ", decimal_of(pid as u64).as_str(), ")")
}

/// The line below the output. `seconds` is how long it took, in seconds with
/// one decimal place.
pub fn finish_line(exit_code: Option<i32>, seconds: &str) -> (r: String)
    ensures
        r@ == "[child] finished ("@ + (match exit_code {
            Some(code) => "exit "@ + signed_decimal(code as int),
            None => "signal"@,
        }) + ", "@ + seconds@ + "s)"@,
{
    let mut out = "[child] finished (".to_owned();
    match exit_code {
        Some(code) => {
            let mut end = "exit ".to_owned();
            end.append(signed_decimal_of(code as i64).as_str());
            out.append(end.as_str());
        },
        None => {
            out.append("signal");
        },
    }
    out.append(", ");
    out.append(seconds);
    out.append("s)");
    out
}

/// The streams of a child process.
#[derive(Debug, Clone, Copy, PartialEq, Eq, Structural)]
pub enum StreamKind {
    Stdout,
    Stderr,
}

/// The colour of a stream.
pub open spec fn colour(kind: StreamKind) -> Seq<char> {
    match kind {
        StreamKind::Stdout => ANSI_DIM@,
        StreamKind::Stderr => ANSI_YELLOW@,
    }
}

impl StreamKind {
    /// The colour of the stream.
    pub fn ansi(self) -> (r: &'static str)
        ensures
            r@ == colour(self),
    {
        match self {
            StreamKind::Stdout => ANSI_DIM,
            StreamKind::Stderr => ANSI_YELLOW,
        }
    }
}

/// Bytes as they are shown: in the colour of their stream, or as they are.
pub open spec fn shown(kind: StreamKind, color: bool, bytes: Seq<u8>) -> Seq<u8> {
    if color {
        vstd::utf8::encode_utf8(colour(kind)) + bytes + vstd::utf8::encode_utf8(ANSI_RESET@)
    } else {
        bytes
    }
}

/// Appends bytes to `sink` as they are shown.
pub fn write_display(sink: &mut Vec<u8>, kind: StreamKind, color: bool, bytes: &[u8])
    ensures
        final(sink)@ == old(sink)@ + shown(kind, color, bytes@),
{
    let ghost before = sink@;
    if color {
        sink.extend_from_slice(kind.ansi().as_bytes());
        sink.extend_from_slice(bytes);
        sink.extend_from_slice(ANSI_RESET.as_bytes());
    } else {
        sink.extend_from_slice(bytes);
    }
    assert(sink@ =~= before + shown(kind, color, bytes@));
}

/// A [`DisplayRateLimiter`] as a mathematical value.
#[verifier::ext_equal]
pub struct LimiterModel {
    pub budget: usize,
    pub window: Duration,
    pub window_start: Instant,
    pub used: usize,
}

/// Caps how many bytes are shown in a window of time.
#[derive(Debug, Clone)]
pub struct DisplayRateLimiter {
    budget: usize,
    window: Duration,
    window_start: Instant,
    used: usize,
}

impl View for DisplayRateLimiter {
    type V = LimiterModel;

    closed spec fn view(&self) -> LimiterModel {
        LimiterModel {
            budget: self.budget,
            window: self.window,
            window_start: self.window_start,
            used: self.used,
        }
    }
}

/// Whether the window has passed. A clock that went back has not.
pub open spec fn window_passed(m: LimiterModel, now: Instant) -> bool {
    (if now.nanos > m.window_start.nanos {
        now.nanos - m.window_start.nanos
    } else {
        0
    }) >= m.window.total()
}

/// The limiter once the window that has passed, if it has, is followed by a
/// new one.
pub open spec fn window_at(m: LimiterModel, now: Instant) -> LimiterModel {
    if window_passed(m, now) {
        LimiterModel { window_start: now, used: 0, ..m }
    } else {
        m
    }
}

/// How many of `n` bytes may be shown: as many as are left in the window.
pub open spec fn allowed(m: LimiterModel, n: nat, now: Instant) -> nat {
    let w = window_at(m, now);
    let left: int = if w.used > w.budget {
        0
    } else {
        w.budget - w.used
    };
    if n < left {
        n
    } else {
        left as nat
    }
}

/// The limiter after so many bytes were to be shown.
pub open spec fn limiter_after(m: LimiterModel, n: nat, now: Instant) -> LimiterModel {
    let w = window_at(m, now);
    LimiterModel { used: (w.used + allowed(m, n, now)) as usize, ..w }
}

impl DisplayRateLimiter {
    /// A limiter whose first window starts now.
    pub fn new(budget: usize, window: Duration, now: Instant) -> (r: Self)
        ensures
            r@ == (LimiterModel { budget, window, window_start: now, used: 0 }),
    {
        DisplayRateLimiter { budget, window, window_start: now, used: 0 }
    }

    /// A limiter with the usual budget per second.
    pub fn new_per_second(now: Instant) -> (r: Self)
        ensures
            r@.budget == STREAM_DISPLAY_BYTES_PER_SECOND,
            r@.window.total() == 1_000_000_000,
            r@.window_start == now,
            r@.used == 0,
    {
        Self::new(STREAM_DISPLAY_BYTES_PER_SECOND, Duration::from_secs(1), now)
    }

    fn has_passed(&self, now: Instant) -> (r: bool)
        ensures
            r == window_passed(self@, now),
    {
        match self.window_start.checked_add(self.window) {
            Some(end) => {
                if now.nanos > self.window_start.nanos {
                    now.nanos >= end.nanos
                } else {
                    self.window.secs == 0 && self.window.nanos == 0
                }
            },
            None => false,
        }
    }

    /// How many of the bytes may be shown now: a prefix of that length. The
    /// others are not shown later either.
    pub fn allow(&mut self, bytes: &[u8], now: Instant) -> (r: usize)
        ensures
            r == allowed(old(self)@, bytes@.len(), now),
            final(self)@ == limiter_after(old(self)@, bytes@.len(), now),
            r <= bytes@.len(),
    {
        if self.has_passed(now) {
            self.window_start = now;
            self.used = 0;
        }
        let left: usize = if self.used > self.budget {
            0
        } else {
            self.budget - self.used
        };
        let n: usize = bytes.len();
        let allowed: usize = if n < left {
            n
        } else {
            left
        };
        self.used = self.used + allowed;
        allowed
    }

    /// Appends as many of the bytes to `sink` as may be shown now.
    pub fn write(&mut self, sink: &mut Vec<u8>, bytes: &[u8], now: Instant)
        ensures
            final(sink)@ == old(sink)@ + bytes@.take(
                allowed(old(self)@, bytes@.len(), now) as int,
            ),
            final(self)@ == limiter_after(old(self)@, bytes@.len(), now),
    {
        let n: usize = self.allow(bytes, now);
        let part = vstd::slice::slice_subrange(bytes, 0, n);
        assert(part@ =~= bytes@.take(n as int));
        sink.extend_from_slice(part);
    }
}

/// What a limiter has let through in its window is within its budget.
pub open spec fn within_budget(m: LimiterModel) -> bool {
    m.used <= m.budget
}

/// In no window are more bytes shown than its budget.
pub proof fn law_budget_is_kept(m: LimiterModel, n: nat, now: Instant)
    requires
        within_budget(m),
    ensures
        within_budget(limiter_after(m, n, now)),
        allowed(m, n, now) <= n,
        !window_passed(m, now) ==> m.used + allowed(m, n, now) <= m.budget,
{
}

/// A [`Pump`] as a mathematical value.
#[verifier::ext_equal]
pub struct PumpModel {
    pub kept: Seq<u8>,
    pub truncated: bool,
    pub kind: StreamKind,
    pub color: bool,
    pub limiter: LimiterModel,
}

/// Takes in one stream of a child process.
pub struct Pump {
    accumulated: Vec<u8>,
    truncated: bool,
    kind: StreamKind,
    color: bool,
    limiter: DisplayRateLimiter,
}

impl View for Pump {
    type V = PumpModel;

    closed spec fn view(&self) -> PumpModel {
        PumpModel {
            kept: self.accumulated@,
            truncated: self.truncated,
            kind: self.kind,
            color: self.color,
            limiter: self.limiter@,
        }
    }
}

/// The first bytes, as many as are kept.
pub open spec fn head(bytes: Seq<u8>) -> Seq<u8> {
    if bytes.len() <= COMMAND_MAX_STREAM_BYTES {
        bytes
    } else {
        bytes.take(COMMAND_MAX_STREAM_BYTES as int)
    }
}

/// The stream with one more chunk.
pub open spec fn pumped(m: PumpModel, chunk: Seq<u8>, now: Instant) -> PumpModel {
    PumpModel {
        kept: if m.kept.len() >= COMMAND_MAX_STREAM_BYTES {
            m.kept
        } else {
            head(m.kept + chunk)
        },
        truncated: m.truncated || (chunk.len() > 0 && m.kept.len() + chunk.len()
            > COMMAND_MAX_STREAM_BYTES),
        limiter: if m.color {
            limiter_after(m.limiter, chunk.len(), now)
        } else {
            m.limiter
        },
        ..m
    }
}

/// What is shown of one more chunk: nothing but on a terminal.
pub open spec fn pump_shows(m: PumpModel, chunk: Seq<u8>, now: Instant) -> Seq<u8> {
    let n = allowed(m.limiter, chunk.len(), now);
    if m.color && n > 0 {
        shown(m.kind, true, chunk.take(n as int))
    } else {
        Seq::empty()
    }
}

impl Pump {
    /// A stream of which nothing has come in yet.
    pub fn new(kind: StreamKind, color: bool, limiter: DisplayRateLimiter) -> (r: Self)
        ensures
            r@ == (PumpModel {
                kept: Seq::empty(),
                truncated: false,
                kind,
                color,
                limiter: limiter@,
            }),
    {
        Pump { accumulated: Vec::new(), truncated: false, kind, color, limiter }
    }

    /// The bytes that were kept.
    pub fn kept(&self) -> (r: &Vec<u8>)
        ensures
            r@ == self@.kept,
    {
        &self.accumulated
    }

    /// Whether some bytes were not kept.
    pub fn truncated(&self) -> (r: bool)
        ensures
            r == self@.truncated,
    {
        self.truncated
    }

    /// Takes in a chunk. Returns what is shown of it.
    pub fn take_in(&mut self, chunk: &[u8], now: Instant) -> (r: Vec<u8>)
        ensures
            final(self)@ == pumped(old(self)@, chunk@, now),
            r@ == pump_shows(old(self)@, chunk@, now),
    {
        let n: usize = chunk.len();
        let room: usize = if self.accumulated.len() >= COMMAND_MAX_STREAM_BYTES {
            0
        } else {
            COMMAND_MAX_STREAM_BYTES - self.accumulated.len()
        };
        let ghost before = self.accumulated@;
        let take: usize = if n < room {
            n
        } else {
            room
        };
        let part = vstd::slice::slice_subrange(chunk, 0, take);
        self.accumulated.extend_from_slice(part);
        assert(self.accumulated@ =~= pumped(old(self)@, chunk@, now).kept);
        if take < n {
            self.truncated = true;
        }
        let mut out: Vec<u8> = Vec::new();
        if self.color {
            let allowed: usize = self.limiter.allow(chunk, now);
            if allowed > 0 {
                let part = vstd::slice::slice_subrange(chunk, 0, allowed);
                assert(part@ =~= chunk@.take(allowed as int));
                write_display(&mut out, self.kind, true, part);
                assert(out@ =~= shown(self.kind, true, part@));
            }
        }
        assert(self@ =~= pumped(old(self)@, chunk@, now));
        out
    }
}

/// How a stream is cut into chunks does not matter for what is kept of it.
pub proof fn law_chunks_do_not_matter(
    m: PumpModel,
    a: Seq<u8>,
    b: Seq<u8>,
    t: Instant,
    u: Instant,
)
    requires
        m.kept.len() <= COMMAND_MAX_STREAM_BYTES,
    ensures
        pumped(pumped(m, a, t), b, u).kept == pumped(m, a + b, u).kept,
        pumped(pumped(m, a, t), b, u).truncated == pumped(m, a + b, u).truncated,
{
    let twice = pumped(pumped(m, a, t), b, u);
    let once = pumped(m, a + b, u);
    assert(twice.kept =~= once.kept);
}

/// What is kept of a stream is its start, and it is said to be truncated
/// exactly if it was longer.
pub proof fn law_the_start_is_kept(m: PumpModel, all: Seq<u8>, chunk: Seq<u8>, now: Instant)
    requires
        m.kept == head(all),
        m.truncated == (all.len() > COMMAND_MAX_STREAM_BYTES),
    ensures
        pumped(m, chunk, now).kept == head(all + chunk),
        pumped(m, chunk, now).truncated == ((all + chunk).len() > COMMAND_MAX_STREAM_BYTES),
{
    assert(pumped(m, chunk, now).kept =~= head(all + chunk));
}

/// Output that comes in is put behind what was kept, whole as long as there
/// is room for it, and otherwise up to the limit; that some of it was not
/// kept is remembered for good.
pub proof fn law_output_is_kept_up_to_the_limit(
    pump: &mut Pump,
    chunk: &[u8],
    now: Instant,
    r: Vec<u8>,
)
    requires
        call_ensures(Pump::take_in, (pump, chunk, now), r),
    ensures
        old(pump)@.kept.len() + chunk@.len() <= 262_144 ==> final(pump)@.kept == old(pump)@.kept
            + chunk@ && final(pump)@.truncated == old(pump)@.truncated,
        old(pump)@.kept.len() <= 262_144 < old(pump)@.kept.len() + chunk@.len()
            ==> final(pump)@.kept == (old(pump)@.kept + chunk@).take(262_144)
            && final(pump)@.truncated,
        old(pump)@.truncated ==> final(pump)@.truncated,
        final(pump)@.kind == old(pump)@.kind,
        final(pump)@.color == old(pump)@.color,
{
    let all = old(pump)@.kept + chunk@;
    if old(pump)@.kept.len() + chunk@.len() <= 262_144 {
        if old(pump)@.kept.len() >= 262_144 {
            assert(all =~= old(pump)@.kept);
        }
    } else if old(pump)@.kept.len() <= 262_144 {
        if old(pump)@.kept.len() >= 262_144 {
            assert(all.take(262_144) =~= old(pump)@.kept);
        }
    }
}

/// Output is shown on a terminal alone. There it is shown whole, in the
/// colour of its stream, as long as the window has room for it; what has no
/// room is not shown.
pub proof fn law_output_is_shown_on_a_terminal(
    pump: &mut Pump,
    chunk: &[u8],
    now: Instant,
    r: Vec<u8>,
)
    requires
        call_ensures(Pump::take_in, (pump, chunk, now), r),
    ensures
        !old(pump)@.color ==> r@.len() == 0,
        old(pump)@.color && chunk@.len() > 0 && old(pump)@.limiter.used + chunk@.len()
            <= old(pump)@.limiter.budget ==> r@ == vstd::utf8::encode_utf8(
            (if old(pump)@.kind is Stdout {
                "\x1b[2m"@
            } else {
                "\x1b[33m"@
            }),
        ) + chunk@ + vstd::utf8::encode_utf8("\x1b[0m"@),
        old(pump)@.color && now.nanos - old(pump)@.limiter.window_start.nanos
            < old(pump)@.limiter.window.total() && old(pump)@.limiter.used
            >= old(pump)@.limiter.budget && old(pump)@.limiter.window.total() > 0 ==> r@.len() == 0,
{
    let m = old(pump)@;
    if m.color && chunk@.len() > 0 && m.limiter.used + chunk@.len() <= m.limiter.budget {
        assert(allowed(m.limiter, chunk@.len(), now) == chunk@.len());
        assert(chunk@.take(chunk@.len() as int) =~= chunk@);
    }
}

/// A limiter lets through as many bytes as its window has room for, and no
/// more. Once the window has passed, a new one starts with all of its room.
pub proof fn law_windows_have_room(
    limiter: &mut DisplayRateLimiter,
    bytes: &[u8],
    now: Instant,
    r: usize,
)
    requires
        call_ensures(DisplayRateLimiter::allow, (limiter, bytes, now), r),
    ensures
        ({
            let m = old(limiter)@;
            let total = m.window.secs * 1_000_000_000 + m.window.nanos;
            &&& now.nanos - m.window_start.nanos >= total && now.nanos > m.window_start.nanos ==> r
                == (if bytes@.len() < m.budget {
                bytes@.len()
            } else {
                m.budget as nat
            }) && final(limiter)@.used == r && final(limiter)@.window_start == now
            &&& now.nanos - m.window_start.nanos < total && total > 0 ==> r == (if m.used > m.budget {
                0
            } else if bytes@.len() < m.budget - m.used {
                bytes@.len() as int
            } else {
                m.budget - m.used
            }) && final(limiter)@.used == m.used + r && final(limiter)@.window_start
                == m.window_start
            &&& final(limiter)@.budget == m.budget
            &&& final(limiter)@.window == m.window
        }),
{
}

/// What is left of a child process is what was kept of its streams.
pub proof fn law_streams_are_collected(
    stdout: Pump,
    stderr: Pump,
    exit_code: Option<i32>,
    duration: Duration,
    r: ChildOutput,
)
    requires
        call_ensures(collect_output, (stdout, stderr, exit_code, duration), r),
    ensures
        r.stdout@ == lossy_text(stdout@.kept),
        r.stderr@ == lossy_text(stderr@.kept),
        r.exit_code == exit_code,
        r.duration == duration,
        r.truncated <==> stdout@.truncated || stderr@.truncated,
{
}

/// A stream starts with nothing kept.
pub proof fn law_streams_start_empty(
    kind: StreamKind,
    color: bool,
    limiter: DisplayRateLimiter,
    r: Pump,
)
    requires
        call_ensures(Pump::new, (kind, color, limiter), r),
    ensures
        r@.kept.len() == 0,
        !r@.truncated,
        r@.kind == kind,
        r@.color == color,
        r@.limiter == limiter@,
{
}

/// The line below the output says how the child process ended and how long it
/// took.
pub proof fn law_the_end_is_told(exit_code: Option<i32>, seconds: &str, r: String)
    requires
        call_ensures(finish_line, (exit_code, seconds), r),
    ensures
        exit_code is Some ==> holds_text(r@, "exit "@ + signed_decimal(exit_code->0 as int)),
        exit_code is None ==> holds_text(r@, "signal"@),
        holds_text(r@, seconds@ + "s)"@),
{
    let how = match exit_code {
        Some(code) => "exit "@ + signed_decimal(code as int),
        None => "signal"@,
    };
    let end = seconds@ + "s)"@;
    assert(r@ =~= ("[child] finished ("@ + how) + (", "@ + end));
    assert(r@ =~= (("[child] finished ("@ + how + ", "@) + end) + Seq::<char>::empty());
}

} // verus!
