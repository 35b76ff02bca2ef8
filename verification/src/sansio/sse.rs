//! Incremental Server-Sent Events (SSE) decoder.
//!
//! Callers push bytes with [`SseDecoder::feed`] and pull completed events
//! with [`SseDecoder::next_event`]. The events do not depend on how the bytes
//! are split into chunks. Lines that begin with `data:` accumulate
//! for the current event, which an empty line dispatches. Lines that begin
//! with `:` are comments. Every other field is ignored. A line ends with
//! `\n`, `\r\n` or a lone `\r`.
use vstd::prelude::*;
use vstd::slice::slice_subrange;
use vstd::string::*;
use vstd::utf8::*;

use crate::text::{decimal, decimal_of, same, utf8_text};

pub mod lines;

verus! {

/// Event produced by [`SseDecoder`].
#[derive(Debug, Clone, PartialEq, Eq)]
pub enum SseEvent {
    /// A completed event with the accumulated `data:` field value. Several
    /// `data:` lines in the same event are joined with `\n`.
    Message { data: String },
    /// A comment line, typically a keep-alive.
    Comment(String),
}

/// An [`SseEvent`] as a mathematical value.
pub enum EventModel {
    Message { data: Seq<char> },
    Comment(Seq<char>),
}

impl View for SseEvent {
    type V = EventModel;

    open spec fn view(&self) -> EventModel {
        match self {
            SseEvent::Message { data } => EventModel::Message { data: data@ },
            SseEvent::Comment(s) => EventModel::Comment(s@),
        }
    }
}

/// Errors that can occur while decoding.
#[derive(Debug, Clone, Copy, PartialEq, Eq, Structural)]
pub enum SseError {
    /// A single line grew past the configured byte limit.
    LineTooLong { limit: usize },
    /// A line or field value held bytes that are not valid UTF-8.
    InvalidUtf8,
}

/// What an error says in words.
pub open spec fn sse_error_text(e: SseError) -> Seq<char> {
    match e {
        SseError::LineTooLong { limit } => "SSE line exceeded "@ + decimal(limit as nat)
            + "-byte limit"@,
        SseError::InvalidUtf8 => "SSE line contained invalid UTF-8"@,
    }
}

impl SseError {
    /// What the error says in words.
    pub fn to_string(&self) -> (r: String)
        ensures
            r@ == sse_error_text(*self),
    {
        match self {
            SseError::LineTooLong { limit } => {
                let mut out = "SSE line exceeded ".to_owned();
                let n = decimal_of(*limit as u64);
                out.append(n.as_str());
                out.append("-byte limit");
                out
            },
            SseError::InvalidUtf8 => "SSE line contained invalid UTF-8".to_owned(),
        }
    }
}

/// What a decoder holds.
#[verifier::ext_equal]
pub struct DecoderModel {
    /// The longest line that is accepted, in bytes.
    pub limit: usize,
    /// The bytes that were fed and not yet decoded.
    pub buf: Seq<u8>,
    /// The data lines of the event under way, each with its line end.
    pub data: Seq<char>,
    /// Whether the event under way has a data line.
    pub has_data_field: bool,
    /// The error that stopped the decoder.
    pub error: Option<SseError>,
}

/// Incremental SSE decoder.
///
/// Once [`Self::next_event`] has returned an error, every later call returns
/// the same error.
pub struct SseDecoder {
    max_line_bytes: usize,
    buf: Vec<u8>,
    data: String,
    has_data_field: bool,
    error: Option<SseError>,
}

impl View for SseDecoder {
    type V = DecoderModel;

    closed spec fn view(&self) -> DecoderModel {
        DecoderModel {
            limit: self.max_line_bytes,
            buf: self.buf@,
            data: self.data@,
            has_data_field: self.has_data_field,
            error: self.error,
        }
    }
}

/// Whether a byte ends a line.
pub open spec fn ends_line(b: u8) -> bool {
    b == 10 || b == 13
}

/// The index of the first line end at or behind `from`, or the length.
pub open spec fn line_end(buf: Seq<u8>, from: int) -> int
    decreases buf.len() - from,
{
    if from < 0 || from >= buf.len() {
        buf.len() as int
    } else if ends_line(buf[from]) {
        from
    } else {
        line_end(buf, from + 1)
    }
}

/// Whether it is still open where the first line ends: no line end is there
/// yet, or a carriage return is the last byte, so that a line feed may follow.
pub open spec fn line_open(buf: Seq<u8>) -> bool {
    let end = line_end(buf, 0);
    end == buf.len() || (buf[end] == 13 && end + 1 == buf.len())
}

/// How many bytes the first line takes, its line end included.
pub open spec fn line_consumed(buf: Seq<u8>) -> int {
    let end = line_end(buf, 0);
    if buf[end] == 13 && buf[end + 1] == 10 {
        end + 2
    } else {
        end + 1
    }
}

/// The index of the first `b` at or behind `from`, or the length.
pub open spec fn byte_from(line: Seq<u8>, b: u8, from: int) -> int
    decreases line.len() - from,
{
    if from < 0 || from >= line.len() {
        line.len() as int
    } else if line[from] == b {
        from
    } else {
        byte_from(line, b, from + 1)
    }
}

/// The name of the field that a line holds: what stands before the colon.
pub open spec fn field_bytes(line: Seq<u8>) -> Seq<u8> {
    line.take(byte_from(line, 58, 0))
}

/// The value of the field that a line holds: what stands behind the colon,
/// without one leading space; nothing where there is no colon.
pub open spec fn value_bytes(line: Seq<u8>) -> Seq<u8> {
    let colon = byte_from(line, 58, 0);
    if colon == line.len() {
        Seq::empty()
    } else if colon + 1 < line.len() && line[colon + 1] == 32 {
        line.skip(colon + 2)
    } else {
        line.skip(colon + 1)
    }
}

/// `s` without one leading space.
pub open spec fn without_space(s: Seq<char>) -> Seq<char> {
    if s.len() > 0 && s[0] == ' ' {
        s.skip(1)
    } else {
        s
    }
}

/// What one line does.
pub enum Step {
    /// No complete line is there.
    Stop,
    /// The line cannot be decoded.
    Fail(DecoderModel, SseError),
    /// The line was taken in without an event.
    Quiet(DecoderModel),
    /// The line completed an event.
    Emit(DecoderModel, EventModel),
}

/// A line cannot be decoded, and the decoder keeps the error.
pub open spec fn failed(d: DecoderModel, e: SseError) -> Step {
    Step::Fail(DecoderModel { error: Some(e), ..d }, e)
}

/// What a complete line does, once its bytes are taken off the buffer.
pub open spec fn line_step(d: DecoderModel, line: Seq<u8>) -> Step {
    if line.len() == 0 {
        if d.has_data_field {
            let data = if d.data.len() > 0 && d.data.last() == '\n' {
                d.data.drop_last()
            } else {
                d.data
            };
            Step::Emit(
                DecoderModel { data: Seq::empty(), has_data_field: false, ..d },
                EventModel::Message { data },
            )
        } else {
            Step::Quiet(d)
        }
    } else if line[0] == 58 {
        if valid_utf8(line.skip(1)) {
            Step::Emit(d, EventModel::Comment(without_space(decode_utf8(line.skip(1)))))
        } else {
            failed(d, SseError::InvalidUtf8)
        }
    } else if !valid_utf8(field_bytes(line)) || !valid_utf8(value_bytes(line)) {
        failed(d, SseError::InvalidUtf8)
    } else if decode_utf8(field_bytes(line)) == "data"@ {
        Step::Quiet(
            DecoderModel {
                data: (d.data + decode_utf8(value_bytes(line))).push('\n'),
                has_data_field: true,
                ..d
            },
        )
    } else {
        Step::Quiet(d)
    }
}

/// What the first line of the buffer does.
pub open spec fn step(d: DecoderModel) -> Step {
    let end = line_end(d.buf, 0);
    if end > d.limit {
        failed(d, SseError::LineTooLong { limit: d.limit })
    } else if line_open(d.buf) {
        Step::Stop
    } else {
        line_step(
            DecoderModel { buf: d.buf.skip(line_consumed(d.buf)), ..d },
            d.buf.take(end),
        )
    }
}

/// Where the first line end is.
proof fn lemma_line_end(buf: Seq<u8>, from: int)
    requires
        0 <= from <= buf.len(),
    ensures
        from <= line_end(buf, from) <= buf.len(),
        line_end(buf, from) < buf.len() ==> ends_line(buf[line_end(buf, from)]),
        forall|i: int| from <= i < line_end(buf, from) ==> !ends_line(buf[i]),
    decreases buf.len() - from,
{
    if from < buf.len() && !ends_line(buf[from]) {
        lemma_line_end(buf, from + 1);
    }
}

/// A step that takes in a line shortens the buffer and keeps everything but
/// the data of the event under way.
proof fn lemma_step_shrinks(d: DecoderModel)
    ensures
        match step(d) {
            Step::Quiet(e) => e.buf.len() < d.buf.len() && e.limit == d.limit && e.error == d.error,
            Step::Emit(e, _) => e.buf.len() < d.buf.len() && e.limit == d.limit && e.error
                == d.error,
            _ => true,
        },
{
    lemma_line_end(d.buf, 0);
}

/// The next event of a decoder that has no error, and the decoder after it.
pub open spec fn next_of(d: DecoderModel) -> (DecoderModel, Result<Option<EventModel>, SseError>)
    decreases d.buf.len(),
{
    match step(d) {
        Step::Stop => (d, Ok(None)),
        Step::Fail(f, e) => (f, Err(e)),
        Step::Emit(e, event) => (e, Ok(Some(event))),
        Step::Quiet(e) => if e.buf.len() < d.buf.len() {
            next_of(e)
        } else {
            (d, Ok(None))
        },
    }
}

/// What [`SseDecoder::next_event`] returns, and the decoder after it.
pub open spec fn next_event_of(d: DecoderModel) -> (
    DecoderModel,
    Result<Option<EventModel>, SseError>,
) {
    match d.error {
        Some(e) => (d, Err(e)),
        None => next_of(d),
    }
}

/// An event is made of bytes: with each the buffer shrinks.
pub proof fn lemma_events_shrink(d: DecoderModel)
    ensures
        match next_event_of(d).1 {
            Ok(Some(_)) => next_event_of(d).0.buf.len() < d.buf.len(),
            _ => true,
        },
    decreases d.buf.len(),
{
    lemma_step_shrinks(d);
    if d.error is None {
        if let Step::Quiet(e) = step(d) {
            lemma_events_shrink(e);
        }
    }
}

impl SseDecoder {
    /// Default upper bound on a single SSE line, in bytes.
    pub const DEFAULT_MAX_LINE_BYTES: usize = 1024 * 1024;

    /// Creates a decoder that uses [`Self::DEFAULT_MAX_LINE_BYTES`].
    pub fn new() -> (r: Self)
        ensures
            r@ == empty_decoder(Self::DEFAULT_MAX_LINE_BYTES),
    {
        Self::with_max_line_bytes(Self::DEFAULT_MAX_LINE_BYTES)
    }

    /// Creates a decoder with a custom limit.
    pub fn with_max_line_bytes(max_line_bytes: usize) -> (r: Self)
        ensures
            r@ == empty_decoder(max_line_bytes),
    {
        let r = SseDecoder {
            max_line_bytes,
            buf: Vec::new(),
            data: String::new(),
            has_data_field: false,
            error: None,
        };
        assert(r@ =~= empty_decoder(max_line_bytes));
        r
    }

    /// The configured limit.
    pub fn max_line_bytes(&self) -> (r: usize)
        ensures
            r == self@.limit,
    {
        self.max_line_bytes
    }

    /// Appends received bytes. Never fails; the bytes are looked at in
    /// [`Self::next_event`].
    pub fn feed(&mut self, chunk: &[u8])
        ensures
            final(self)@ == fed(old(self)@, chunk@),
    {
        self.buf.extend_from_slice(chunk);
        assert(self@ =~= fed(old(self)@, chunk@));
    }

    /// Takes the next event out of the bytes. Returns `Ok(None)` when more
    /// bytes are needed, and an error for ever once a line has failed.
    pub fn next_event(&mut self) -> (r: Result<Option<SseEvent>, SseError>)
        ensures
            final(self)@ == next_event_of(old(self)@).0,
            match r {
                Ok(Some(event)) => next_event_of(old(self)@).1 == Ok::<
                    Option<EventModel>,
                    SseError,
                >(Some(event@)),
                Ok(None) => next_event_of(old(self)@).1 == Ok::<Option<EventModel>, SseError>(None),
                Err(e) => next_event_of(old(self)@).1 == Err::<Option<EventModel>, SseError>(e),
            },
    {
        if let Some(err) = self.error {
            return Err(err);
        }
        loop
            invariant
                self@.error is None,
                old(self)@.error is None,
                next_of(self@) == next_of(old(self)@),
            decreases self@.buf.len(),
        {
            proof {
                lemma_step_shrinks(self@);
            }
            let ghost before = self@;
            let line = match self.take_line() {
                Ok(Some(line)) => line,
                Ok(None) => return Ok(None),
                Err(err) => return Err(self.fail(err)),
            };
            if line.len() == 0 {
                if self.has_data_field {
                    let mut data = String::new();
                    std::mem::swap(&mut data, &mut self.data);
                    let data = without_line_feed(data);
                    self.has_data_field = false;
                    return Ok(Some(SseEvent::Message { data }));
                }
                continue ;
            }
            if line[0] == 58 {
                let bytes = slice_subrange(line.as_slice(), 1, line.len());
                proof {
                    assert(line@.subrange(1, line@.len() as int) =~= line@.skip(1));
                }
                let content = match utf8_text(bytes) {
                    Ok(s) => s,
                    Err(_) => return Err(self.fail(SseError::InvalidUtf8)),
                };
                proof {
                    encode_utf8_decode_utf8(content@);
                }
                return Ok(Some(SseEvent::Comment(strip_space(content))));
            }
            let colon = find_byte(&line, 58);
            let value_start: usize = if colon == line.len() {
                line.len()
            } else if colon + 1 < line.len() && line[colon + 1] == 32 {
                colon + 2
            } else {
                colon + 1
            };
            proof {
                assert(line@.subrange(0, colon as int) =~= field_bytes(line@));
                assert(line@.subrange(value_start as int, line@.len() as int) =~= value_bytes(
                    line@,
                ));
            }
            let field = match utf8_text(slice_subrange(line.as_slice(), 0, colon)) {
                Ok(s) => s,
                Err(_) => return Err(self.fail(SseError::InvalidUtf8)),
            };
            let value = match utf8_text(slice_subrange(line.as_slice(), value_start, line.len())) {
                Ok(s) => s,
                Err(_) => return Err(self.fail(SseError::InvalidUtf8)),
            };
            proof {
                encode_utf8_decode_utf8(field@);
                encode_utf8_decode_utf8(value@);
            }
            if same(field, "data") {
                self.data.append(value);
                self.data.push('\n');
                self.has_data_field = true;
            }
        }
    }

    fn fail(&mut self, err: SseError) -> (r: SseError)
        ensures
            r == err,
            final(self)@ == (DecoderModel { error: Some(err), ..old(self)@ }),
    {
        self.error = Some(err);
        err
    }

    /// Takes the first line off the buffer, if it is complete.
    fn take_line(&mut self) -> (r: Result<Option<Vec<u8>>, SseError>)
        ensures
            match r {
                Ok(Some(line)) => {
                    let buf = old(self)@.buf;
                    &&& !line_open(buf)
                    &&& line_end(buf, 0) <= old(self)@.limit
                    &&& line@ == buf.take(line_end(buf, 0))
                    &&& final(self)@ == (DecoderModel {
                        buf: buf.skip(line_consumed(buf)),
                        ..old(self)@
                    })
                },
                Ok(None) => step(old(self)@) == Step::Stop && final(self)@ == old(self)@,
                Err(e) => step(old(self)@) == failed(old(self)@, e) && final(self)@ == old(self)@,
            },
    {
        let end = find_line_end(&self.buf);
        if end > self.max_line_bytes {
            return Err(SseError::LineTooLong { limit: self.max_line_bytes });
        }
        if end == self.buf.len() || (self.buf[end] == 13 && end + 1 == self.buf.len()) {
            return Ok(None);
        }
        let consumed: usize = if self.buf[end] == 13 && self.buf[end + 1] == 10 {
            end + 2
        } else {
            end + 1
        };
        let mut line = self.buf.split_off(consumed);
        std::mem::swap(&mut line, &mut self.buf);
        line.truncate(end);
        proof {
            assert(line@ =~= old(self)@.buf.take(end as int));
            assert(self@ =~= DecoderModel {
                buf: old(self)@.buf.skip(line_consumed(old(self)@.buf)),
                ..old(self)@
            });
        }
        Ok(Some(line))
    }
}

impl Default for SseDecoder {
    fn default() -> (r: Self)
        ensures
            r@ == empty_decoder(SseDecoder::DEFAULT_MAX_LINE_BYTES),
    {
        SseDecoder::new()
    }
}

/// A decoder that has seen nothing.
pub open spec fn empty_decoder(limit: usize) -> DecoderModel {
    DecoderModel {
        limit,
        buf: Seq::empty(),
        data: Seq::empty(),
        has_data_field: false,
        error: None,
    }
}

/// The decoder after more bytes have come in.
pub open spec fn fed(d: DecoderModel, chunk: Seq<u8>) -> DecoderModel {
    DecoderModel { buf: d.buf + chunk, ..d }
}

fn find_line_end(buf: &Vec<u8>) -> (r: usize)
    ensures
        r == line_end(buf@, 0),
        r <= buf@.len(),
{
    let mut i: usize = 0;
    while i < buf.len() && buf[i] != 10 && buf[i] != 13
        invariant
            i <= buf@.len(),
            line_end(buf@, i as int) == line_end(buf@, 0),
        decreases buf@.len() - i,
    {
        i = i + 1;
    }
    i
}

fn find_byte(line: &Vec<u8>, b: u8) -> (r: usize)
    ensures
        r == byte_from(line@, b, 0),
        r <= line@.len(),
{
    let mut i: usize = 0;
    while i < line.len() && line[i] != b
        invariant
            i <= line@.len(),
            byte_from(line@, b, i as int) == byte_from(line@, b, 0),
        decreases line@.len() - i,
    {
        i = i + 1;
    }
    i
}

/// `s` without one leading space.
fn strip_space(s: &str) -> (r: String)
    ensures
        r@ == without_space(s@),
{
    let n = s.unicode_len();
    if n > 0 && s.get_char(0) == ' ' {
        assert(s@.subrange(1, n as int) =~= s@.skip(1));
        s.substring_char(1, n).to_owned()
    } else {
        s.to_owned()
    }
}

/// `s` without one trailing line feed.
fn without_line_feed(s: String) -> (r: String)
    ensures
        r@ == if s@.len() > 0 && s@.last() == '\n' {
            s@.drop_last()
        } else {
            s@
        },
{
    let n = s.as_str().unicode_len();
    if n > 0 && s.as_str().get_char(n - 1) == '\n' {
        assert(s@.subrange(0, n - 1) =~= s@.drop_last());
        s.as_str().substring_char(0, n - 1).to_owned()
    } else {
        s
    }
}

/// The events that a decoder gives until it wants more bytes or fails, and
/// the decoder after them.
pub open spec fn drained(d: DecoderModel) -> (Seq<EventModel>, DecoderModel)
    decreases d.buf.len(),
{
    if d.error is Some {
        (Seq::empty(), d)
    } else {
        match step(d) {
            Step::Stop => (Seq::empty(), d),
            Step::Fail(f, _) => (Seq::empty(), f),
            Step::Quiet(e) => if e.buf.len() < d.buf.len() {
                drained(e)
            } else {
                (Seq::empty(), d)
            },
            Step::Emit(e, event) => if e.buf.len() < d.buf.len() {
                (seq![event] + drained(e).0, drained(e).1)
            } else {
                (Seq::empty(), d)
            },
        }
    }
}

/// Calling `next_event` until it gives no event gives the events of
/// [`drained`], one by one.
pub proof fn law_drained_is_next_event_repeated(d: DecoderModel)
    ensures
        match next_event_of(d) {
            (e, Ok(Some(event))) => drained(d) == (seq![event] + drained(e).0, drained(e).1),
            (e, _) => drained(d) == (Seq::<EventModel>::empty(), e),
        },
    decreases d.buf.len(),
{
    lemma_step_shrinks(d);
    if d.error is None {
        if let Step::Quiet(e) = step(d) {
            law_drained_is_next_event_repeated(e);
        }
    }
}

/// Once a line has failed, `next_event` gives the same error for ever,
/// whatever is fed.
pub proof fn law_errors_stick(d: DecoderModel, chunk: Seq<u8>)
    ensures
        next_event_of(d).1 matches Err(e) ==> {
            &&& next_event_of(d).0.error == Some(e)
            &&& next_event_of(fed(next_event_of(d).0, chunk)).1 == Err::<
                Option<EventModel>,
                SseError,
            >(e)
        },
    decreases d.buf.len(),
{
    lemma_step_shrinks(d);
    if d.error is None {
        if let Step::Quiet(e) = step(d) {
            law_errors_stick(e, chunk);
        }
    }
}

/// Where the first line end is does not depend on what follows it.
proof fn lemma_line_end_extends(buf: Seq<u8>, more: Seq<u8>, from: int)
    requires
        0 <= from <= buf.len(),
    ensures
        line_end(buf, from) < buf.len() ==> line_end(buf + more, from) == line_end(buf, from),
        line_end(buf, from) == buf.len() ==> line_end(buf + more, from) >= buf.len(),
    decreases buf.len() - from,
{
    lemma_line_end(buf + more, from);
    if from < buf.len() {
        assert((buf + more)[from] == buf[from]);
        if !ends_line(buf[from]) {
            lemma_line_end_extends(buf, more, from + 1);
        }
    }
}

/// What a line does does not depend on the bytes behind it.
proof fn lemma_step_extends(d: DecoderModel, more: Seq<u8>)
    requires
        d.error is None,
    ensures
        match step(d) {
            Step::Stop => true,
            Step::Fail(f, e) => step(fed(d, more)) == Step::Fail(fed(f, more), e),
            Step::Quiet(e) => step(fed(d, more)) == Step::Quiet(fed(e, more)),
            Step::Emit(e, event) => step(fed(d, more)) == Step::Emit(fed(e, more), event),
        },
{
    let f = fed(d, more);
    lemma_line_end(d.buf, 0);
    lemma_line_end(f.buf, 0);
    lemma_line_end_extends(d.buf, more, 0);
    let end = line_end(d.buf, 0);
    if line_open(d.buf) {
    } else {
        let n = line_consumed(d.buf);
        assert(f.buf[end] == d.buf[end]);
        if end + 1 < d.buf.len() {
            assert(f.buf[end + 1] == d.buf[end + 1]);
        }
        assert(line_consumed(f.buf) == n);
        assert(f.buf.take(end) =~= d.buf.take(end));
        assert(f.buf.skip(n) =~= d.buf.skip(n) + more);
    }
}

/// The events do not depend on how the bytes are split into chunks, nor does
/// the decoder that is left.
pub proof fn law_chunks_do_not_matter(d: DecoderModel, a: Seq<u8>, b: Seq<u8>)
    ensures
        ({
            let (first, middle) = drained(fed(d, a));
            let (second, end) = drained(fed(middle, b));
            drained(fed(d, a + b)) == (first + second, end)
        }),
    decreases (d.buf + a).len(),
{
    let x = fed(d, a);
    let (first, middle) = drained(x);
    let (second, end) = drained(fed(middle, b));
    assert(fed(d, a + b) =~= fed(x, b));
    lemma_step_shrinks(x);
    lemma_step_shrinks(fed(x, b));
    assert(Seq::<EventModel>::empty() + second =~= second);
    if d.error is None {
        lemma_step_extends(x, b);
        match step(x) {
            Step::Stop => {},
            Step::Fail(_, _) => {
                assert(second =~= Seq::<EventModel>::empty());
            },
            Step::Quiet(e) => {
                assert(fed(e, Seq::empty()) =~= e);
                assert(Seq::<u8>::empty() + b =~= b);
                law_chunks_do_not_matter(e, Seq::empty(), b);
            },
            Step::Emit(e, event) => {
                assert(fed(e, Seq::empty()) =~= e);
                assert(Seq::<u8>::empty() + b =~= b);
                law_chunks_do_not_matter(e, Seq::empty(), b);
                assert(first + second =~= seq![event] + (drained(e).0 + second));
            },
        }
    } else {
        assert(second =~= Seq::<EventModel>::empty());
    }
}

/// What a server writes for a message of one line.
pub open spec fn message_bytes(value: Seq<u8>) -> Seq<u8> {
    seq![100u8, 97, 116, 97, 58, 32] + value + seq![10u8, 10]
}

/// An ASCII character is its own encoding.
proof fn lemma_ascii_decoded(b: u8, rest: Seq<u8>)
    requires
        b <= 0x7f,
        valid_utf8(rest),
    ensures
        valid_utf8(seq![b] + rest),
        decode_utf8(seq![b] + rest) == seq![b as char] + decode_utf8(rest),
{
    let all = seq![b] + rest;
    assert(b & 0x7f == b) by (bit_vector)
        requires
            b <= 0x7f,
    ;
    assert(all[0] == b);
    assert(pop_first_scalar(all) =~= rest);
    assert(valid_first_scalar(all));
}

pub proof fn lemma_data_field()
    ensures
        valid_utf8(seq![100u8, 97, 116, 97]),
        decode_utf8(seq![100u8, 97, 116, 97]) == "data"@,
{
    reveal_strlit("data");
    let none = Seq::<u8>::empty();
    assert(decode_utf8(none) =~= Seq::<char>::empty());
    lemma_ascii_decoded(97, none);
    lemma_ascii_decoded(116, seq![97u8] + none);
    lemma_ascii_decoded(97, seq![116u8] + (seq![97u8] + none));
    lemma_ascii_decoded(100, seq![97u8] + (seq![116u8] + (seq![97u8] + none)));
    assert(seq![100u8] + (seq![97u8] + (seq![116u8] + (seq![97u8] + none))) =~= seq![
        100u8,
        97,
        116,
        97,
    ]);
    assert(decode_utf8(seq![100u8, 97, 116, 97]) =~= "data"@);
}

/// Where a byte stands that does not stand before.
pub proof fn lemma_byte_from(line: Seq<u8>, b: u8, from: int, at: int)
    requires
        0 <= from <= at < line.len(),
        line[at] == b,
        forall|i: int| from <= i < at ==> line[i] != b,
    ensures
        byte_from(line, b, from) == at,
    decreases at - from,
{
    if from < at {
        lemma_byte_from(line, b, from + 1, at);
    }
}

/// Where a line end stands that does not stand before.
pub proof fn lemma_first_line_end(buf: Seq<u8>, from: int, at: int)
    requires
        0 <= from <= at < buf.len(),
        ends_line(buf[at]),
        forall|i: int| from <= i < at ==> !ends_line(buf[i]),
    ensures
        line_end(buf, from) == at,
    decreases at - from,
{
    if from < at {
        lemma_first_line_end(buf, from + 1, at);
    }
}

/// A message that a server has written is read as it was written, and nothing
/// behind it is touched.
pub proof fn law_messages_are_read(d: DecoderModel, value: Seq<u8>, rest: Seq<u8>)
    requires
        d.error is None,
        !d.has_data_field,
        d.data.len() == 0,
        d.buf == message_bytes(value) + rest,
        valid_utf8(value),
        forall|i: int| 0 <= i < value.len() ==> !ends_line(#[trigger] value[i]),
        value.len() + 6 <= d.limit,
    ensures
        next_event_of(d) == (
            DecoderModel { buf: rest, ..d },
            Ok::<Option<EventModel>, SseError>(
                Some(EventModel::Message { data: decode_utf8(value) }),
            ),
        ),
{
    let head = seq![100u8, 97, 116, 97, 58, 32];
    let line = head + value;
    let n = line.len() as int;
    lemma_data_field();
    assert forall|i: int| 0 <= i < n implies !ends_line(d.buf[i]) && d.buf[i] == line[i] by {
        if i >= 6 {
            assert(d.buf[i] == value[i - 6]);
        }
    }
    assert(d.buf[n] == 10);
    lemma_first_line_end(d.buf, 0, n);
    assert(d.buf.take(n) =~= line);
    assert(line_consumed(d.buf) == n + 1);
    lemma_byte_from(line, 58, 0, 4);
    assert(field_bytes(line) =~= seq![100u8, 97, 116, 97]);
    assert(value_bytes(line) =~= value);
    let text = decode_utf8(value);
    let e = DecoderModel {
        buf: d.buf.skip(n + 1),
        data: (d.data + text).push('\n'),
        has_data_field: true,
        ..d
    };
    assert(step(d) == Step::Quiet(e));
    assert(e.buf =~= seq![10u8] + rest);
    assert(e.buf[0] == 10);
    assert(line_end(e.buf, 0) == 0);
    assert(e.buf.take(0) =~= Seq::empty());
    assert(e.buf.skip(1) =~= rest);
    assert(e.data.drop_last() =~= text);
    assert(d.data =~= Seq::empty());
    let f = DecoderModel { buf: rest, ..d };
    assert(step(e) == Step::Emit(f, EventModel::Message { data: text }));
    assert(next_of(e).0 == f);
    assert(e.buf.len() < d.buf.len());
    assert(next_of(d) == next_of(e));
}

} // verus!
