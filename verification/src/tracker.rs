//! The byte-usage counter: one signed 64-bit counter per backend instance,
//! incremented as flushed bytes reach the tree and decremented as files are
//! deleted.  It is advisory — an eventually-consistent tally, not a
//! transactional ledger — and saturates at the extremes of its range instead
//! of overflowing.

use vstd::prelude::*;

verus! {

/// `x` clamped to the range of an `i64`.
pub open spec fn clamp_i64(x: int) -> int {
    if x > i64::MAX as int {
        i64::MAX as int
    } else if x < i64::MIN as int {
        i64::MIN as int
    } else {
        x
    }
}

/// The shared counter of bytes resident on disk for one backend instance.
#[derive(Debug)]
pub struct UsageTracker {
    pub val: i64,
}

impl UsageTracker {
    pub fn new() -> (r: Self)
        ensures
            r.val == 0,
    {
        UsageTracker { val: 0 }
    }

    /// Adds `n` freshly written bytes to the tally.
    pub fn increment(&mut self, n: u64)
        ensures
            final(self).val == clamp_i64(old(self).val + n),
    {
        let s: i128 = self.val as i128 + n as i128;
        if s > i64::MAX as i128 {
            self.val = i64::MAX;
        } else {
            self.val = s as i64;
        }
    }

    /// Removes `n` deleted bytes from the tally.
    pub fn decrement(&mut self, n: u64)
        ensures
            final(self).val == clamp_i64(old(self).val - n),
    {
        let s: i128 = self.val as i128 - n as i128;
        if s < i64::MIN as i128 {
            self.val = i64::MIN;
        } else {
            self.val = s as i64;
        }
    }

    /// The current tally.
    pub fn read(&self) -> (r: i64)
        ensures
            r == self.val,
    {
        self.val
    }
}

} // verus!
