//! Points in time and the spans between them, as plain numbers.
use vstd::prelude::*;

verus! {

/// A span of time.
#[derive(Debug, Clone, Copy, PartialEq, Eq, Structural)]
pub struct Duration {
    pub secs: u64,
    /// The part below a second.
    pub nanos: u32,
}

impl Duration {
    /// The span in nanoseconds.
    pub open spec fn total(self) -> int {
        self.secs * 1_000_000_000 + self.nanos
    }

    /// A span of whole seconds.
    pub fn from_secs(secs: u64) -> (r: Duration)
        ensures
            r == (Duration { secs, nanos: 0 }),
            r.total() == secs * 1_000_000_000,
    {
        Duration { secs, nanos: 0 }
    }

    /// A span of milliseconds.
    pub fn from_millis(millis: u64) -> (r: Duration)
        ensures
            r.nanos < 1_000_000_000,
            r.total() == millis * 1_000_000,
    {
        Duration { secs: millis / 1000, nanos: ((millis % 1000) * 1_000_000) as u32 }
    }

    /// The whole seconds of the span.
    pub fn as_secs(self) -> (r: u64)
        ensures
            r == self.secs,
    {
        self.secs
    }

    /// The whole milliseconds of the span.
    pub fn as_millis(self) -> (r: u128)
        ensures
            r == self.total() / 1_000_000,
    {
        self.secs as u128 * 1000 + (self.nanos / 1_000_000) as u128
    }
}

/// A point on a clock that never goes back, in nanoseconds. Where the clock
/// starts is left open: it may be read as a negative number.
#[derive(Debug, Clone, Copy, PartialEq, Eq, Structural)]
pub struct Instant {
    pub nanos: i128,
}

impl Instant {
    /// The point a span earlier, unless it is out of range.
    pub fn checked_sub(self, d: Duration) -> (r: Option<Instant>)
        ensures
            match r {
                Some(t) => t.nanos == self.nanos - d.total(),
                None => self.nanos - d.total() < i128::MIN,
            },
    {
        let span: i128 = d.secs as i128 * 1_000_000_000 + d.nanos as i128;
        if self.nanos < i128::MIN + span {
            None
        } else {
            Some(Instant { nanos: self.nanos - span })
        }
    }

    /// The point a span later, unless it is out of range.
    pub fn checked_add(self, d: Duration) -> (r: Option<Instant>)
        ensures
            match r {
                Some(t) => t.nanos == self.nanos + d.total(),
                None => self.nanos + d.total() > i128::MAX,
            },
    {
        let span: i128 = d.secs as i128 * 1_000_000_000 + d.nanos as i128;
        if self.nanos > i128::MAX - span {
            None
        } else {
            Some(Instant { nanos: self.nanos + span })
        }
    }
}

} // verus!
