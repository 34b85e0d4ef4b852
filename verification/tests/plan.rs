use multipart_upload::backoff::BackoffPolicy;
use multipart_upload::failure::{FailureKind, UploadError};
use multipart_upload::permits::PermitPool;
use multipart_upload::plan::{ChunkTask, UploadPlan};

fn plan_of(parts: usize, chunk_size: u64) -> UploadPlan {
    let urls = (0..parts).map(|part| format!("https://bucket.example/part/{part}")).collect();
    UploadPlan::new("/tmp/file.bin".to_string(), urls, chunk_size, 4, 2, 3)
}

#[test]
fn new_plan_has_the_default_backoff() {
    let plan = plan_of(3, 1024);
    assert_eq!(plan.file_path, "/tmp/file.bin");
    assert_eq!(plan.part_count(), 3);
    assert_eq!(plan.chunk_size, 1024);
    assert_eq!(plan.max_files, 4);
    assert_eq!(plan.parallel_failures, 2);
    assert_eq!(plan.max_retries, 3);
    assert_eq!(plan.backoff, BackoffPolicy { base: 300, cap: 10_000 });
}

#[test]
fn plan_is_valid_with_positive_chunk_size_and_max_files() {
    assert!(plan_of(3, 1024).is_valid());
    assert!(plan_of(0, 1).is_valid());
    assert!(!plan_of(3, 0).is_valid());
    let mut plan = plan_of(3, 1024);
    plan.max_files = 0;
    assert!(!plan.is_valid());
    plan.max_files = 1;
    plan.parallel_failures = 0;
    plan.max_retries = 0;
    assert!(plan.is_valid());
}

#[test]
fn task_of_a_part_starts_at_part_times_chunk_size() {
    let plan = plan_of(3, 5 * 1024 * 1024);
    assert_eq!(
        plan.chunk_task(0),
        Ok(ChunkTask {
            part_number: 0,
            url: "https://bucket.example/part/0".to_string(),
            start: 0,
            chunk_size: 5 * 1024 * 1024,
        })
    );
    assert_eq!(
        plan.chunk_task(2),
        Ok(ChunkTask {
            part_number: 2,
            url: "https://bucket.example/part/2".to_string(),
            start: 10 * 1024 * 1024,
            chunk_size: 5 * 1024 * 1024,
        })
    );
}

#[test]
fn task_whose_offset_overflows_is_an_error() {
    let plan = plan_of(3, u64::MAX / 2 + 1);
    assert!(plan.chunk_task(0).is_ok());
    assert_eq!(plan.chunk_task(1).unwrap().start, u64::MAX / 2 + 1);
    let error = plan.chunk_task(2).unwrap_err();
    assert_eq!(error, UploadError::OffsetOverflow { part: 2, chunk_size: u64::MAX / 2 + 1 });
    assert_eq!(error.kind(), FailureKind::IoFailure);
    assert_eq!(error.part(), 2);
}

#[test]
fn first_overflowing_part_is_the_least_one() {
    assert_eq!(plan_of(3, 1024).first_overflowing_part(), None);
    assert_eq!(plan_of(0, u64::MAX).first_overflowing_part(), None);
    assert_eq!(plan_of(1, u64::MAX).first_overflowing_part(), None);
    assert_eq!(plan_of(2, u64::MAX).first_overflowing_part(), None);
    assert_eq!(plan_of(3, u64::MAX).first_overflowing_part(), Some(2));
    assert_eq!(plan_of(9, u64::MAX / 2 + 1).first_overflowing_part(), Some(2));
    assert_eq!(plan_of(9, u64::MAX / 4).first_overflowing_part(), Some(5));
    assert_eq!(plan_of(5, 0).first_overflowing_part(), None);
}

#[test]
fn pool_hands_out_its_permits_and_no_more() {
    let mut pool = PermitPool::new(2);
    assert_eq!(pool.capacity(), 2);
    assert_eq!(pool.in_use(), 0);
    assert_eq!(pool.available(), 2);
    assert!(pool.try_acquire());
    assert!(pool.try_acquire());
    assert_eq!(pool.in_use(), 2);
    assert_eq!(pool.available(), 0);
    assert!(!pool.try_acquire());
    assert_eq!(pool.in_use(), 2);
    pool.release();
    assert_eq!(pool.in_use(), 1);
    assert_eq!(pool.available(), 1);
    assert!(pool.try_acquire());
    assert!(!pool.try_acquire());
}

#[test]
fn pool_without_permits_never_hands_one_out() {
    let mut pool = PermitPool::new(0);
    assert!(!pool.try_acquire());
    assert_eq!(pool.in_use(), 0);
    assert_eq!(pool.available(), 0);
}
