//! When a request that failed is made again.

use vstd::prelude::*;

verus! {

/// How often a request is made before it is given up.
pub const ATTEMPTS: u32 = 4;

/// The wait after the first failure, in milliseconds.
pub const FIRST_WAIT: u64 = 500;

/// The longest wait, in milliseconds.
pub const LONGEST_WAIT: u64 = 8_000;

/// The wait after a number of earlier failures, in milliseconds: each twice as
/// long as the one before, up to the longest.
pub open spec fn wait_after(earlier: nat) -> nat
    decreases earlier,
{
    if earlier == 0 {
        FIRST_WAIT as nat
    } else {
        let doubled = 2 * wait_after((earlier - 1) as nat);
        if doubled < LONGEST_WAIT {
            doubled
        } else {
            LONGEST_WAIT as nat
        }
    }
}

/// The state of a request that may be made several times.
pub struct Retry {
    failures: u32,
    delay_ms: u64,
}

impl Retry {
    /// How often the request has failed.
    pub closed spec fn failed(self) -> nat {
        self.failures as nat
    }

    /// Whether the request may still be made.
    pub closed spec fn valid(self) -> bool {
        self.failures < ATTEMPTS && self.delay_ms == wait_after(self.failures as nat)
    }

    /// The request has not been made yet.
    pub fn new() -> (r: Retry)
        ensures
            r.valid(),
            r.failed() == 0,
    {
        Retry { failures: 0, delay_ms: FIRST_WAIT }
    }

    /// Records a failure. Gives the wait before the request is to be made
    /// again, in milliseconds, or nothing where it is to be given up.
    pub fn fail(&mut self) -> (r: Option<u64>)
        requires
            old(self).valid(),
        ensures
            r is None <==> old(self).failed() + 1 == ATTEMPTS,
            r is None ==> *final(self) == *old(self),
            r matches Some(ms) ==> ms == wait_after(old(self).failed()) && final(self).valid()
                && final(self).failed() == old(self).failed() + 1,
    {
        if self.failures + 1 == ATTEMPTS {
            return None;
        }
        let wait = self.delay_ms;
        self.failures = self.failures + 1;
        self.delay_ms = if 2 * wait < LONGEST_WAIT {
            2 * wait
        } else {
            LONGEST_WAIT
        };
        Some(wait)
    }
}

/// The waits do not grow shorter, and none is longer than the longest.
pub proof fn waits_grow(a: nat, b: nat)
    requires
        a <= b,
    ensures
        FIRST_WAIT <= wait_after(a) <= wait_after(b) <= LONGEST_WAIT,
    decreases b,
{
    if a < b {
        waits_grow(a, (b - 1) as nat);
    } else if a > 0 {
        waits_grow((a - 1) as nat, (b - 1) as nat);
    }
}

} // verus!
