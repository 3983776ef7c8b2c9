//! The process-wide query counter: a single 64-bit value, starting at
//! zero, advanced exactly once per successfully routed query.
//!
//! The router holds the counter as a mutable reference; the surrounding
//! server owns it and decides how to share it between requests.

use vstd::prelude::*;

verus! {

/// `n` advanced by one, wrapping at the 64-bit limit.
pub open spec fn wrap_inc(n: u64) -> u64 {
    if n == u64::MAX {
        0
    } else {
        (n + 1) as u64
    }
}

/// The query counter.
#[derive(Clone, PartialEq, Eq, Structural, Debug)]
pub struct QueryCounter {
    /// Number of queries routed so far (wrapping at the 64-bit limit).
    pub count: u64,
}

impl QueryCounter {
    /// A fresh counter, as at process start.
    pub fn new() -> (c: QueryCounter)
        ensures
            c.count == 0,
    {
        QueryCounter { count: 0 }
    }

    /// Advances the counter by one and returns the value it had before,
    /// as a fetch-and-add does.
    pub fn bump(&mut self) -> (prev: u64)
        ensures
            prev == old(self).count,
            final(self).count == wrap_inc(old(self).count),
    {
        let prev = self.count;
        if self.count == u64::MAX {
            self.count = 0;
        } else {
            self.count = self.count + 1;
        }
        prev
    }
}

} // verus!
