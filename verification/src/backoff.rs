//! The delay before a retry.
//!
//! The curve is quadratic and capped: `min(base + attempt², cap)`. It is
//! traditionally called an exponential backoff and the function keeps that
//! name, but contracts state the curve as it is.

use vstd::prelude::*;

verus! {

/// Base wait of the default policy, in milliseconds.
pub const BASE_WAIT_TIME: usize = 300;

/// Longest wait of the default policy, in milliseconds.
pub const MAX_WAIT_TIME: usize = 10_000;

/// The wait before retry number `attempt` (counted from zero):
/// `base + attempt²`, but never more than `cap`.
pub open spec fn backoff_wait(base: nat, attempt: nat, cap: nat) -> nat {
    if base + attempt * attempt <= cap {
        base + attempt * attempt
    } else {
        cap
    }
}

/// Computes `min(base_wait_time + n², max)`.
///
/// The sum is taken over the integers: where `n²` or the sum does not fit in
/// a `usize`, it is larger than `max`, so the result is `max`.
pub fn exponential_backoff(base_wait_time: usize, n: usize, max: usize) -> (wait: usize)
    ensures
        wait == backoff_wait(base_wait_time as nat, n as nat, max as nat),
        wait <= max,
{
    match n.checked_mul(n) {
        Some(square) => match base_wait_time.checked_add(square) {
            Some(total) => if total <= max { total } else { max },
            None => max,
        },
        None => max,
    }
}

/// The two parameters of the backoff curve.
#[derive(Clone, Copy, Debug, PartialEq, Eq, Structural)]
pub struct BackoffPolicy {
    /// Wait before the first retry, in milliseconds.
    pub base: usize,
    /// Upper bound of every wait, in milliseconds.
    pub cap: usize,
}

impl BackoffPolicy {
    /// The wait this policy prescribes before retry number `attempt`.
    pub open spec fn spec_wait(self, attempt: nat) -> nat {
        backoff_wait(self.base as nat, attempt, self.cap as nat)
    }

    pub fn new(base: usize, cap: usize) -> (policy: Self)
        ensures
            policy.base == base,
            policy.cap == cap,
    {
        BackoffPolicy { base, cap }
    }

    /// Milliseconds to wait before retry number `attempt`.
    pub fn wait(&self, attempt: usize) -> (millis: usize)
        ensures
            millis == self.spec_wait(attempt as nat),
            millis <= self.cap,
    {
        exponential_backoff(self.base, attempt, self.cap)
    }
}

impl Default for BackoffPolicy {
    /// 300 ms at first, 10 s at most.
    fn default() -> (policy: Self)
        ensures
            policy.base == BASE_WAIT_TIME,
            policy.cap == MAX_WAIT_TIME,
    {
        BackoffPolicy { base: BASE_WAIT_TIME, cap: MAX_WAIT_TIME }
    }
}

/// No wait exceeds the cap.
pub proof fn lemma_backoff_bounded(base: nat, attempt: nat, cap: nat)
    ensures
        backoff_wait(base, attempt, cap) <= cap,
{
}

/// A later retry never waits less than an earlier one.
pub proof fn lemma_backoff_monotonic(base: nat, earlier: nat, later: nat, cap: nat)
    requires
        earlier <= later,
    ensures
        backoff_wait(base, earlier, cap) <= backoff_wait(base, later, cap),
{
    assert(earlier * earlier <= later * later) by (nonlinear_arith)
        requires
            earlier <= later,
    ;
}

} // verus!
