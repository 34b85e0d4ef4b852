//! What follows a failed transfer attempt of one chunk.

use crate::failure::{TransferFailure, UploadError};
use crate::plan::UploadPlan;
use vstd::prelude::*;

verus! {

/// The two things that can follow a failed attempt.
#[derive(Clone, Debug, PartialEq, Eq)]
pub enum RetryDecision {
    /// The chunk has failed for good, and with it the upload.
    Abort(UploadError),
    /// The chunk takes a slot among the waiting chunks, waits `millis`
    /// milliseconds, gives the slot back and tries again.
    Backoff { millis: usize },
}

/// The decision after attempt number `retries` (counted from zero) of chunk
/// `part` has ended in `failure`, where `slot_free` says whether another
/// chunk may join those that wait to retry.
///
/// A failure that is not retryable ends the chunk, and so does any failure
/// when `parallel_failures` is zero: the failure itself is the error. Else
/// the chunk asks for a slot. Without one it ends at once. With one it ends
/// if it has used up its retries, and waits otherwise.
pub open spec fn retry_decision(
    plan: UploadPlan,
    part: usize,
    retries: usize,
    failure: TransferFailure,
    slot_free: bool,
) -> RetryDecision {
    if !failure.retryable() || plan.parallel_failures == 0 {
        RetryDecision::Abort(UploadError::Transfer { part, failure })
    } else if !slot_free {
        RetryDecision::Abort(
            UploadError::FailureConcurrencyExceeded {
                part,
                parallel_failures: plan.parallel_failures,
                last: failure,
            },
        )
    } else if retries >= plan.max_retries {
        RetryDecision::Abort(
            UploadError::RetriesExhausted { part, max_retries: plan.max_retries, last: failure },
        )
    } else {
        RetryDecision::Backoff { millis: plan.backoff.spec_wait(retries as nat) as usize }
    }
}

/// Decides what follows a failed attempt.
pub fn decide_retry(
    plan: &UploadPlan,
    part: usize,
    retries: usize,
    failure: TransferFailure,
    slot_free: bool,
) -> (decision: RetryDecision)
    ensures
        decision == retry_decision(*plan, part, retries, failure, slot_free),
{
    if !failure.is_retryable() || plan.parallel_failures == 0 {
        RetryDecision::Abort(UploadError::Transfer { part, failure })
    } else if !slot_free {
        RetryDecision::Abort(
            UploadError::FailureConcurrencyExceeded {
                part,
                parallel_failures: plan.parallel_failures,
                last: failure,
            },
        )
    } else if retries >= plan.max_retries {
        RetryDecision::Abort(
            UploadError::RetriesExhausted { part, max_retries: plan.max_retries, last: failure },
        )
    } else {
        RetryDecision::Backoff { millis: plan.backoff.wait(retries) }
    }
}

/// With retries switched off, a failed attempt ends the chunk with that
/// failure, whatever else holds: no slot is asked for and nothing is waited
/// for.
pub proof fn lemma_switched_off_aborts(
    plan: UploadPlan,
    part: usize,
    retries: usize,
    failure: TransferFailure,
    slot_free: bool,
)
    requires
        plan.parallel_failures == 0,
    ensures
        retry_decision(plan, part, retries, failure, slot_free) == RetryDecision::Abort(
            UploadError::Transfer { part, failure },
        ),
{
}

/// Where no slot is free, a retryable failure ends the chunk at once: the
/// decision is never to wait, however few retries the chunk has made.
pub proof fn lemma_no_slot_fails_fast(
    plan: UploadPlan,
    part: usize,
    retries: usize,
    failure: TransferFailure,
)
    requires
        plan.parallel_failures > 0,
        failure.retryable(),
    ensures
        retry_decision(plan, part, retries, failure, false) == RetryDecision::Abort(
            UploadError::FailureConcurrencyExceeded {
                part,
                parallel_failures: plan.parallel_failures,
                last: failure,
            },
        ),
{
}

/// A failure that is not retryable is never waited on.
pub proof fn lemma_fatal_failure_aborts(
    plan: UploadPlan,
    part: usize,
    retries: usize,
    failure: TransferFailure,
    slot_free: bool,
)
    requires
        !failure.retryable(),
    ensures
        retry_decision(plan, part, retries, failure, slot_free) == RetryDecision::Abort(
            UploadError::Transfer { part, failure },
        ),
{
}

} // verus!
