use multipart_upload::engine::Engine;
use multipart_upload::failure::{FailureKind, TransferFailure, UploadError};
use multipart_upload::headers::{Headers, RawHeader};
use multipart_upload::model::{Action, ChunkPhase, Event};
use multipart_upload::plan::{ChunkTask, UploadPlan};
use multipart_upload::transfer::response_outcome;

const MB: u64 = 1024 * 1024;

fn plan_of(
    parts: usize,
    chunk_size: u64,
    max_files: usize,
    parallel_failures: usize,
    max_retries: usize,
) -> UploadPlan {
    let urls = (0..parts).map(|part| format!("https://bucket.example/part/{part}")).collect();
    UploadPlan::new(
        "/tmp/file.bin".to_string(),
        urls,
        chunk_size,
        max_files,
        parallel_failures,
        max_retries,
    )
}

fn etag(tag: &str) -> Headers {
    let raw = [RawHeader { name: "etag".to_string(), value: tag.as_bytes().to_vec() }];
    response_outcome(200, &raw).unwrap()
}

fn done(part: usize, tag: &str) -> Event {
    Event::TransferDone { part, outcome: Ok(etag(tag)) }
}

fn failed(part: usize, status: u16) -> Event {
    Event::TransferDone { part, outcome: response_outcome(status, &[]) }
}

fn transfer(part: usize, chunk_size: u64) -> Action {
    Action::StartTransfer(ChunkTask {
        part_number: part,
        url: format!("https://bucket.example/part/{part}"),
        start: part as u64 * chunk_size,
        chunk_size,
    })
}

fn tags(results: &[Headers]) -> Vec<String> {
    results.iter().map(|headers| headers.get("etag").unwrap().clone()).collect()
}

#[test]
fn two_parts_complete_in_part_order() {
    let (mut engine, actions) = Engine::start(plan_of(2, 5 * MB, 2, 0, 0));
    assert_eq!(actions, vec![transfer(0, 5 * MB), transfer(1, 5 * MB)]);
    assert!(engine.step(done(0, "first")).is_empty());
    assert!(engine.is_running());
    assert!(engine.step(done(1, "second")).is_empty());
    assert!(!engine.is_running());
    let results = engine.into_outcome().unwrap().unwrap();
    assert_eq!(results.len(), 2);
    assert_eq!(tags(&results), vec!["first", "second"]);
}

#[test]
fn two_parts_completing_out_of_order_stay_in_part_order() {
    let (mut engine, actions) = Engine::start(plan_of(2, 5 * MB, 2, 0, 0));
    assert_eq!(actions.len(), 2);
    assert!(engine.step(done(1, "second")).is_empty());
    assert!(engine.is_running());
    assert_eq!(engine.phase(1), Some(ChunkPhase::Succeeded));
    assert_eq!(engine.phase(0), Some(ChunkPhase::Transferring { retries: 0 }));
    assert!(engine.step(done(0, "first")).is_empty());
    let results = engine.into_outcome().unwrap().unwrap();
    assert_eq!(results.len(), 2);
    assert_eq!(tags(&results), vec!["first", "second"]);
}

#[test]
fn three_failures_then_success_wait_300_301_304() {
    let (mut engine, actions) = Engine::start(plan_of(1, MB, 1, 1, 3));
    assert_eq!(actions, vec![transfer(0, MB)]);
    let mut waits = Vec::new();
    let mut attempts = 1;
    for retry in 0..3 {
        let next = engine.step(failed(0, 500));
        assert_eq!(engine.phase(0), Some(ChunkPhase::BackingOff { retries: retry }));
        assert_eq!(engine.waiting(), 1);
        assert_eq!(engine.in_flight(), 1);
        match next.as_slice() {
            [Action::Sleep { part: 0, millis }] => waits.push(*millis),
            other => panic!("expected one wait, got {:?}", other),
        }
        let next = engine.step(Event::BackoffElapsed { part: 0 });
        assert_eq!(next, vec![transfer(0, MB)]);
        assert_eq!(engine.phase(0), Some(ChunkPhase::Transferring { retries: retry + 1 }));
        assert_eq!(engine.waiting(), 0);
        attempts += 1;
    }
    assert_eq!(waits, vec![300, 301, 304]);
    assert_eq!(attempts, 4);
    assert!(engine.step(done(0, "fourth")).is_empty());
    let results = engine.into_outcome().unwrap().unwrap();
    assert_eq!(tags(&results), vec!["fourth"]);
}

#[test]
fn retries_switched_off_fail_on_the_first_500() {
    let (mut engine, actions) = Engine::start(plan_of(1, MB, 1, 0, 3));
    assert_eq!(actions, vec![transfer(0, MB)]);
    let next = engine.step(failed(0, 500));
    assert!(next.is_empty());
    assert!(!engine.is_running());
    assert_eq!(engine.waiting(), 0);
    assert_eq!(engine.phase(0), Some(ChunkPhase::Transferring { retries: 0 }));
    let error = engine.into_outcome().unwrap().unwrap_err();
    assert_eq!(
        error,
        UploadError::Transfer { part: 0, failure: TransferFailure::ServerStatus { status: 500 } }
    );
    assert_eq!(error.kind(), FailureKind::ServerStatusFailure);
}

#[test]
fn two_retries_allow_exactly_three_attempts() {
    let (mut engine, actions) = Engine::start(plan_of(1, MB, 1, 1, 2));
    let mut attempts = actions.len();
    let mut waits = Vec::new();
    loop {
        let next = engine.step(failed(0, 503));
        if !engine.is_running() {
            assert!(next.is_empty());
            break;
        }
        match next.as_slice() {
            [Action::Sleep { part: 0, millis }] => waits.push(*millis),
            other => panic!("expected one wait, got {:?}", other),
        }
        let next = engine.step(Event::BackoffElapsed { part: 0 });
        assert_eq!(next, vec![transfer(0, MB)]);
        attempts += 1;
    }
    assert_eq!(attempts, 3);
    assert_eq!(waits, vec![300, 301]);
    let error = engine.into_outcome().unwrap().unwrap_err();
    assert_eq!(
        error,
        UploadError::RetriesExhausted {
            part: 0,
            max_retries: 2,
            last: TransferFailure::ServerStatus { status: 503 },
        }
    );
    assert_eq!(error.kind(), FailureKind::RetriesExhausted);
}

#[test]
fn bad_header_fails_the_upload_despite_status_200() {
    let (mut engine, _) = Engine::start(plan_of(1, MB, 1, 1, 3));
    let raw = [
        RawHeader { name: "etag".to_string(), value: b"abc".to_vec() },
        RawHeader { name: "x-amz-meta-owner".to_string(), value: b"Ren\xe9e".to_vec() },
    ];
    let next = engine.step(Event::TransferDone { part: 0, outcome: response_outcome(200, &raw) });
    assert!(next.is_empty());
    let error = engine.into_outcome().unwrap().unwrap_err();
    assert_eq!(
        error,
        UploadError::Transfer {
            part: 0,
            failure: TransferFailure::HeaderDecode { name: "x-amz-meta-owner".to_string() },
        }
    );
    assert_eq!(error.kind(), FailureKind::HeaderDecodeFailure);
}

#[test]
fn io_failure_is_not_retried() {
    let (mut engine, _) = Engine::start(plan_of(2, MB, 2, 2, 5));
    let failure = TransferFailure::StartBeyondEnd { start: MB, file_size: 10 };
    let next = engine.step(Event::TransferDone { part: 1, outcome: Err(failure.clone()) });
    assert!(next.is_empty());
    assert_eq!(engine.waiting(), 0);
    let error = engine.into_outcome().unwrap().unwrap_err();
    assert_eq!(error, UploadError::Transfer { part: 1, failure });
    assert_eq!(error.kind(), FailureKind::IoFailure);
}

#[test]
fn saturated_failure_gate_fails_the_next_failing_chunk_at_once() {
    let (mut engine, actions) = Engine::start(plan_of(3, MB, 3, 1, 5));
    assert_eq!(actions.len(), 3);
    let next = engine.step(failed(0, 500));
    assert_eq!(next, vec![Action::Sleep { part: 0, millis: 300 }]);
    assert_eq!(engine.waiting(), 1);
    let next = engine.step(failed(2, 502));
    assert!(next.is_empty());
    assert!(!engine.is_running());
    let error = engine.into_outcome().unwrap().unwrap_err();
    assert_eq!(
        error,
        UploadError::FailureConcurrencyExceeded {
            part: 2,
            parallel_failures: 1,
            last: TransferFailure::ServerStatus { status: 502 },
        }
    );
    assert_eq!(error.kind(), FailureKind::FailureConcurrencyExceeded);
}

#[test]
fn failure_slot_is_free_again_after_the_wait() {
    let (mut engine, _) = Engine::start(plan_of(2, MB, 2, 1, 5));
    assert_eq!(engine.step(failed(0, 500)), vec![Action::Sleep { part: 0, millis: 300 }]);
    assert_eq!(engine.step(Event::BackoffElapsed { part: 0 }), vec![transfer(0, MB)]);
    assert_eq!(engine.waiting(), 0);
    assert_eq!(engine.step(failed(1, 500)), vec![Action::Sleep { part: 1, millis: 300 }]);
    assert_eq!(engine.waiting(), 1);
    assert!(engine.is_running());
}

#[test]
fn no_more_than_max_files_chunks_are_in_flight() {
    let parts = 7;
    let max_files = 3;
    let (mut engine, actions) = Engine::start(plan_of(parts, MB, max_files, 2, 50));
    assert_eq!(actions, vec![transfer(0, MB), transfer(1, MB), transfer(2, MB)]);
    assert_eq!(engine.in_flight(), 3);
    let mut running: Vec<usize> = vec![0, 1, 2];
    let mut started = 3;
    let mut round = 0;
    while let Some(part) = running.pop() {
        round += 1;
        let next = if round % 3 == 0 && part % 2 == 0 {
            let waits = engine.step(failed(part, 500));
            assert_eq!(waits.len(), 1);
            assert!(engine.in_flight() <= max_files);
            assert!(engine.waiting() <= 2);
            engine.step(Event::BackoffElapsed { part })
        } else {
            engine.step(done(part, &format!("tag-{part}")))
        };
        assert!(engine.in_flight() <= max_files);
        for action in next {
            match action {
                Action::StartTransfer(task) => {
                    if task.part_number >= started {
                        assert_eq!(task.part_number, started);
                        started += 1;
                    }
                    running.insert(0, task.part_number);
                }
                Action::Sleep { .. } => panic!("no wait expected here"),
            }
        }
        assert!(running.len() <= max_files);
        assert_eq!(engine.in_flight(), running.len());
    }
    assert_eq!(started, parts);
    let results = engine.into_outcome().unwrap().unwrap();
    let expected: Vec<String> = (0..parts).map(|part| format!("tag-{part}")).collect();
    assert_eq!(tags(&results), expected);
}

#[test]
fn single_permit_runs_the_parts_one_after_the_other() {
    let (mut engine, actions) = Engine::start(plan_of(3, 10, 1, 0, 0));
    assert_eq!(actions, vec![transfer(0, 10)]);
    assert_eq!(engine.phase(1), Some(ChunkPhase::Pending));
    assert_eq!(engine.step(done(0, "a")), vec![transfer(1, 10)]);
    assert_eq!(engine.step(done(1, "b")), vec![transfer(2, 10)]);
    assert!(engine.step(done(2, "c")).is_empty());
    assert_eq!(tags(&engine.into_outcome().unwrap().unwrap()), vec!["a", "b", "c"]);
}

#[test]
fn upload_without_parts_is_complete_at_once() {
    let (engine, actions) = Engine::start(plan_of(0, MB, 2, 1, 1));
    assert!(actions.is_empty());
    assert!(!engine.is_running());
    assert_eq!(engine.phase(0), None);
    assert!(engine.into_outcome().unwrap().unwrap().is_empty());
}

#[test]
fn running_upload_has_no_outcome() {
    let (mut engine, _) = Engine::start(plan_of(2, MB, 2, 1, 1));
    engine.step(done(0, "a"));
    assert!(engine.is_running());
    assert!(engine.into_outcome().is_none());
}

#[test]
fn overflowing_offset_fails_before_anything_is_sent() {
    let (engine, actions) = Engine::start(plan_of(4, u64::MAX / 2, 4, 1, 1));
    assert!(actions.is_empty());
    assert!(!engine.is_running());
    assert_eq!(engine.in_flight(), 0);
    let error = engine.into_outcome().unwrap().unwrap_err();
    assert_eq!(error, UploadError::OffsetOverflow { part: 3, chunk_size: u64::MAX / 2 });
    assert_eq!(error.kind(), FailureKind::IoFailure);
}

#[test]
fn aborted_task_fails_the_upload() {
    let (mut engine, _) = Engine::start(plan_of(2, MB, 2, 1, 1));
    engine.step(done(0, "a"));
    let next = engine.step(Event::TaskAborted { part: 1, message: "task panicked".to_string() });
    assert!(next.is_empty());
    let error = engine.into_outcome().unwrap().unwrap_err();
    assert_eq!(error, UploadError::TaskFailure { part: 1, message: "task panicked".to_string() });
    assert_eq!(error.kind(), FailureKind::TaskFailure);
}

#[test]
fn first_failure_wins_and_partial_results_are_dropped() {
    let (mut engine, _) = Engine::start(plan_of(3, MB, 3, 0, 0));
    engine.step(done(0, "a"));
    assert!(engine.step(failed(1, 403)).is_empty());
    assert!(engine.step(done(2, "c")).is_empty());
    assert!(engine.step(failed(2, 500)).is_empty());
    assert_eq!(engine.phase(2), Some(ChunkPhase::Transferring { retries: 0 }));
    let outcome = engine.into_outcome().unwrap();
    assert_eq!(
        outcome.unwrap_err(),
        UploadError::Transfer { part: 1, failure: TransferFailure::ServerStatus { status: 403 } }
    );
}

#[test]
fn reports_that_match_nothing_under_way_are_ignored() {
    let (mut engine, _) = Engine::start(plan_of(3, MB, 1, 1, 1));
    assert!(engine.step(done(1, "early")).is_empty());
    assert_eq!(engine.phase(1), Some(ChunkPhase::Pending));
    assert!(engine.step(done(9, "nowhere")).is_empty());
    assert!(engine.step(Event::BackoffElapsed { part: 0 }).is_empty());
    assert!(engine.step(Event::BackoffElapsed { part: 9 }).is_empty());
    assert_eq!(engine.phase(0), Some(ChunkPhase::Transferring { retries: 0 }));
    assert_eq!(engine.in_flight(), 1);
    assert_eq!(engine.step(done(0, "a")), vec![transfer(1, MB)]);
    assert!(engine.step(done(0, "again")).is_empty());
    assert_eq!(engine.step(done(1, "b")), vec![transfer(2, MB)]);
    assert!(engine.step(done(2, "c")).is_empty());
    assert_eq!(tags(&engine.into_outcome().unwrap().unwrap()), vec!["a", "b", "c"]);
}

#[test]
fn waiting_chunk_keeps_its_primary_permit() {
    let (mut engine, actions) = Engine::start(plan_of(2, MB, 1, 1, 2));
    assert_eq!(actions, vec![transfer(0, MB)]);
    assert_eq!(engine.step(failed(0, 500)), vec![Action::Sleep { part: 0, millis: 300 }]);
    assert_eq!(engine.in_flight(), 1);
    assert_eq!(engine.phase(1), Some(ChunkPhase::Pending));
    assert_eq!(engine.step(Event::BackoffElapsed { part: 0 }), vec![transfer(0, MB)]);
    assert_eq!(engine.step(done(0, "a")), vec![transfer(1, MB)]);
}

#[test]
fn engine_keeps_its_plan() {
    let (engine, _) = Engine::start(plan_of(2, MB, 2, 1, 4));
    assert_eq!(engine.plan().part_count(), 2);
    assert_eq!(engine.plan().max_retries, 4);
    assert_eq!(engine.plan().file_path, "/tmp/file.bin");
}
