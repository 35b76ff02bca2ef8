//! Counters for what the agent does.
use vstd::prelude::*;

verus! {

/// A monotonically increasing counter.
///
/// Cloning takes an independent snapshot of the current value.
#[derive(Debug, Clone, Copy, PartialEq, Eq, Structural)]
pub struct Counter(pub u64);

impl View for Counter {
    type V = u64;

    open spec fn view(&self) -> u64 {
        self.0
    }
}

/// The counter after one more event.
pub open spec fn bumped(c: Counter) -> Counter {
    Counter(c.0.wrapping_add(1))
}

impl Default for Counter {
    /// A counter at zero.
    fn default() -> (r: Self)
        ensures
            r@ == 0,
    {
        Counter(0)
    }
}

impl Counter {
    /// A counter at zero.
    pub fn new() -> (r: Self)
        ensures
            r@ == 0,
    {
        Counter(0)
    }

    /// The current value.
    pub fn get(&self) -> (r: u64)
        ensures
            r == self@,
    {
        self.0
    }

    /// Counts one more event.
    pub fn inc(&mut self)
        ensures
            *final(self) == bumped(*old(self)),
    {
        self.0 = self.0.wrapping_add(1);
    }

    /// Adds `n` to the value; it wraps around at the end of `u64`.
    pub fn add(&mut self, n: u64)
        ensures
            final(self)@ == old(self)@.wrapping_add(n),
    {
        self.0 = self.0.wrapping_add(n);
    }
}

} // verus!
