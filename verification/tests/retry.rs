use multipart_upload::backoff::BackoffPolicy;
use multipart_upload::failure::{FailureKind, TransferFailure, UploadError};
use multipart_upload::plan::UploadPlan;
use multipart_upload::retry::{decide_retry, RetryDecision};

fn plan_with(parallel_failures: usize, max_retries: usize) -> UploadPlan {
    UploadPlan::new(
        "/tmp/file.bin".to_string(),
        vec!["https://bucket.example/part/0".to_string()],
        1024,
        1,
        parallel_failures,
        max_retries,
    )
}

fn status_500() -> TransferFailure {
    TransferFailure::ServerStatus { status: 500 }
}

#[test]
fn retryable_failure_waits_along_the_curve() {
    let plan = plan_with(1, 3);
    assert_eq!(decide_retry(&plan, 0, 0, status_500(), true), RetryDecision::Backoff { millis: 300 });
    assert_eq!(decide_retry(&plan, 0, 1, status_500(), true), RetryDecision::Backoff { millis: 301 });
    assert_eq!(decide_retry(&plan, 0, 2, status_500(), true), RetryDecision::Backoff { millis: 304 });
}

#[test]
fn wait_follows_the_policy_of_the_plan() {
    let mut plan = plan_with(1, 100);
    plan.backoff = BackoffPolicy::new(10, 50);
    assert_eq!(decide_retry(&plan, 0, 3, status_500(), true), RetryDecision::Backoff { millis: 19 });
    assert_eq!(decide_retry(&plan, 0, 9, status_500(), true), RetryDecision::Backoff { millis: 50 });
}

#[test]
fn send_failure_is_retried_too() {
    let plan = plan_with(1, 3);
    let failure = TransferFailure::NetworkSend { message: "connection reset".to_string() };
    assert_eq!(decide_retry(&plan, 0, 0, failure, true), RetryDecision::Backoff { millis: 300 });
}

#[test]
fn retries_switched_off_means_the_failure_is_final() {
    let plan = plan_with(0, 5);
    let decision = decide_retry(&plan, 7, 0, status_500(), true);
    assert_eq!(
        decision,
        RetryDecision::Abort(UploadError::Transfer { part: 7, failure: status_500() })
    );
    let decision = decide_retry(&plan, 7, 0, status_500(), false);
    assert_eq!(
        decision,
        RetryDecision::Abort(UploadError::Transfer { part: 7, failure: status_500() })
    );
}

#[test]
fn no_free_slot_means_failing_at_once() {
    let plan = plan_with(2, 5);
    let decision = decide_retry(&plan, 3, 0, status_500(), false);
    let error = UploadError::FailureConcurrencyExceeded {
        part: 3,
        parallel_failures: 2,
        last: status_500(),
    };
    assert_eq!(error.kind(), FailureKind::FailureConcurrencyExceeded);
    assert_eq!(error.part(), 3);
    assert_eq!(decision, RetryDecision::Abort(error));
}

#[test]
fn no_free_slot_comes_before_used_up_retries() {
    let plan = plan_with(2, 1);
    let decision = decide_retry(&plan, 3, 1, status_500(), false);
    assert_eq!(
        decision,
        RetryDecision::Abort(UploadError::FailureConcurrencyExceeded {
            part: 3,
            parallel_failures: 2,
            last: status_500(),
        })
    );
}

#[test]
fn used_up_retries_end_the_chunk() {
    let plan = plan_with(1, 2);
    assert!(matches!(decide_retry(&plan, 0, 1, status_500(), true), RetryDecision::Backoff { .. }));
    let decision = decide_retry(&plan, 0, 2, status_500(), true);
    let error = UploadError::RetriesExhausted { part: 0, max_retries: 2, last: status_500() };
    assert_eq!(error.kind(), FailureKind::RetriesExhausted);
    assert_eq!(decision, RetryDecision::Abort(error));
}

#[test]
fn zero_max_retries_ends_the_chunk_on_its_first_failure() {
    let plan = plan_with(1, 0);
    assert_eq!(
        decide_retry(&plan, 0, 0, status_500(), true),
        RetryDecision::Abort(UploadError::RetriesExhausted {
            part: 0,
            max_retries: 0,
            last: status_500(),
        })
    );
}

#[test]
fn fatal_failures_are_never_retried() {
    let plan = plan_with(4, 4);
    let io = TransferFailure::Io { message: "permission denied".to_string() };
    assert_eq!(
        decide_retry(&plan, 1, 0, io.clone(), true),
        RetryDecision::Abort(UploadError::Transfer { part: 1, failure: io })
    );
    let range = TransferFailure::StartBeyondEnd { start: 20, file_size: 10 };
    assert_eq!(
        decide_retry(&plan, 1, 0, range.clone(), true),
        RetryDecision::Abort(UploadError::Transfer { part: 1, failure: range })
    );
    let decode = TransferFailure::HeaderDecode { name: "etag".to_string() };
    let decision = decide_retry(&plan, 1, 0, decode.clone(), false);
    assert_eq!(
        decision,
        RetryDecision::Abort(UploadError::Transfer { part: 1, failure: decode })
    );
    if let RetryDecision::Abort(error) = decision {
        assert_eq!(error.kind(), FailureKind::HeaderDecodeFailure);
    }
}
