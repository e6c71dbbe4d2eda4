//! The shared request counter.
//!
//! `State` is the one piece of state every connection and the threshold
//! waiter share. It exposes a single mutation, `increment`, which adds one
//! and hands back the new value, and a snapshot read, `current`. Callers
//! that share a `State` across tasks guard it with a mutual-exclusion
//! primitive held only across these synchronous calls, never across a
//! suspension point; each call here is then atomic with respect to the rest.
use vstd::prelude::*;

verus! {

/// The request counter shared by every connection and the threshold waiter.
pub struct State {
    counter: i32,
}

impl State {
    /// The counter's value, as a mathematical integer.
    pub closed spec fn count(&self) -> int {
        self.counter as int
    }

    /// A fresh counter, starting at zero.
    pub fn new() -> (r: Self)
        ensures
            r.count() == 0,
    {
        Self { counter: 0 }
    }

    /// Adds one to the counter and returns the new value.
    ///
    /// Each call observes a distinct pre-increment value and returns a value
    /// strictly greater than every value returned before it.
    pub fn increment(&mut self) -> (r: i32)
        requires
            old(self).count() < i32::MAX,
        ensures
            final(self).count() == old(self).count() + 1,
            r as int == final(self).count(),
    {
        self.counter = self.counter + 1;
        self.counter
    }

    /// A snapshot read of the counter.
    pub fn current(&self) -> (r: i32)
        ensures
            r as int == self.count(),
    {
        self.counter
    }
}

} // verus!
