//! A ceiling on the bytes that a body takes from its source in one interval.

use vstd::prelude::*;

verus! {

/// A budget of bytes that is spent as chunks arrive and set back to its full
/// size whenever an interval has passed.
#[derive(Debug, Clone, Copy, PartialEq, Eq, Structural)]
pub struct RateLimitLayer {
    /// The bytes allowed in one interval.
    pub nums: u64,
    /// The length of an interval in milliseconds.
    pub per_millis: u64,
    /// The bytes still allowed in the running interval.
    pub left: u64,
}

impl RateLimitLayer {
    /// The layer after `key` bytes were taken: the budget shrinks by `key` and
    /// stops at zero.
    pub open spec fn called(self, key: u64) -> RateLimitLayer {
        RateLimitLayer {
            left: if key >= self.left {
                0
            } else {
                (self.left - key) as u64
            },
            ..self
        }
    }

    /// A layer that allows `nums` bytes in every `per_millis` milliseconds,
    /// with a full budget.
    pub fn new(nums: u64, per_millis: u64) -> (l: Self)
        ensures
            l == (RateLimitLayer { nums, per_millis, left: nums }),
    {
        RateLimitLayer { nums, per_millis, left: nums }
    }

    /// Whether bytes may be taken now.
    pub fn poll_ready(&self) -> (r: bool)
        ensures
            r == (self.left > 0),
    {
        self.left > 0
    }

    /// Spends `key` bytes of the budget.
    pub fn poll_call(&mut self, key: u64)
        ensures
            *final(self) == old(self).called(key),
    {
        if key >= self.left {
            self.left = 0;
        } else {
            self.left = self.left - key;
        }
    }

    /// Starts a new interval: the budget is full again.
    pub fn refill(&mut self)
        ensures
            *final(self) == (RateLimitLayer { left: old(self).nums, ..*old(self) }),
    {
        self.left = self.nums;
    }
}

} // verus!
