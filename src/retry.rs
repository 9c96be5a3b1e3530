use vstd::prelude::*;

verus! {

/// Attempts an operation gets in all, the first one included.
pub const MAX_ATTEMPTS: u32 = 3;

/// Delay before the first retry, in milliseconds; it doubles for each retry after.
pub const BASE_DELAY_MILLIS: u64 = 100;

/// The backoff before retry number `k + 1`, jitter aside: the base delay doubled `k` times.
pub open spec fn backoff(k: nat) -> nat
    decreases k,
{
    if k == 0 {
        BASE_DELAY_MILLIS as nat
    } else {
        2 * backoff((k - 1) as nat)
    }
}

/// Bounded exponential backoff for one operation: counts the attempts that
/// failed and says, after each failure, how long to wait before the next one,
/// or that the operation has run out of attempts.
#[derive(Debug)]
pub struct RetryPolicy {
    failures: u32,
}

impl RetryPolicy {
    pub closed spec fn failed(self) -> nat {
        self.failures as nat
    }

    pub open spec fn wf(self) -> bool {
        self.failed() <= MAX_ATTEMPTS
    }

    /// A policy before the first attempt.
    pub fn new() -> (r: RetryPolicy)
        ensures
            r.failed() == 0,
            r.wf(),
    {
        RetryPolicy { failures: 0 }
    }

    /// Failed attempts so far.
    pub fn failures(&self) -> (r: u32)
        ensures
            r == self.failed(),
    {
        self.failures
    }

    /// Records a failed attempt. Returns the delay before the next attempt,
    /// the backoff plus `jitter_millis`, or `None` when that was the last
    /// attempt: the failure then stands.
    pub fn next_delay(&mut self, jitter_millis: u32) -> (r: Option<u64>)
        requires
            old(self).wf(),
            old(self).failed() < MAX_ATTEMPTS,
        ensures
            final(self).wf(),
            final(self).failed() == old(self).failed() + 1,
            r is Some <==> final(self).failed() < MAX_ATTEMPTS,
            r matches Some(d) ==> d == backoff(old(self).failed()) + jitter_millis,
    {
        let mut delay: u64 = BASE_DELAY_MILLIS;
        let mut k: u32 = 0;
        while k < self.failures
            invariant
                0 <= k <= self.failures,
                self.failures < MAX_ATTEMPTS,
                delay == backoff(k as nat),
                delay <= 400,
            decreases self.failures - k,
        {
            proof {
                reveal_with_fuel(backoff, 3);
            }
            delay = delay * 2;
            k = k + 1;
        }
        self.failures = self.failures + 1;
        if self.failures < MAX_ATTEMPTS {
            Some(delay + jitter_millis as u64)
        } else {
            None
        }
    }
}

} // verus!
