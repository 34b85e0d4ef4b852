//! What holds of every upload, proved of the state machine.

use crate::failure::{TransferFailure, UploadError};
use crate::headers::Headers;
use crate::model::{
    holders, lemma_holders_bounds, lemma_holders_update, Action, ChunkPhase, EngineState, Event,
    Pool, Status,
};
use crate::plan::{lemma_first_overflow, UploadPlan};
use vstd::prelude::*;

verus! {

/// Before anything has happened, no chunk holds a permit.
pub proof fn lemma_blank_holds_nothing(plan: UploadPlan, pool: Pool)
    ensures
        holders(EngineState::blank(plan).phases, pool) == 0,
{
    lemma_holders_bounds(EngineState::blank(plan).phases, pool);
}

/// Letting pending chunks in keeps the state well formed. It touches only
/// the chunks that were pending, starts each of them without a retry, and
/// leaves the filed headers and the status as they are.
pub proof fn lemma_dispatch(state: EngineState)
    requires
        state.wf(),
        state.status is Running,
    ensures
        state.dispatch().0.wf(),
        state.dispatch().0.status == state.status,
        state.dispatch().0.plan == state.plan,
        state.dispatch().0.slots == state.slots,
        state.dispatch().0.waiting == state.waiting,
        state.dispatch().0.next_pending >= state.next_pending,
        forall|i: int|
            0 <= i < state.next_pending ==> #[trigger] state.dispatch().0.phases[i]
                == state.phases[i],
        forall|i: int|
            state.next_pending <= i < state.phases.len() ==> (#[trigger] state.dispatch().0.phases[i]
                == ChunkPhase::Pending || state.dispatch().0.phases[i] == (ChunkPhase::Transferring {
                retries: 0,
            })),
    decreases state.plan.parts() - state.next_pending,
{
    if state.can_start() {
        lemma_start_next_wf(state);
        lemma_dispatch(state.start_next());
    }
}

/// Letting one pending chunk in keeps the state well formed.
pub proof fn lemma_start_next_wf(state: EngineState)
    requires
        state.wf(),
        state.status is Running,
        state.can_start(),
    ensures
        state.start_next().wf(),
{
    let part = state.next_pending as int;
    assert(state.phases[part] is Pending);
    lemma_holders_update(state.phases, part, ChunkPhase::Transferring { retries: 0 }, Pool::Primary);
    lemma_holders_update(state.phases, part, ChunkPhase::Transferring { retries: 0 }, Pool::Failure);
}

/// The first state of an upload is well formed.
pub proof fn lemma_init_wf(plan: UploadPlan)
    requires
        plan.valid(),
    ensures
        EngineState::init(plan).0.wf(),
        EngineState::init(plan).0.plan == plan,
{
    let blank = EngineState::blank(plan);
    lemma_blank_holds_nothing(plan, Pool::Primary);
    lemma_blank_holds_nothing(plan, Pool::Failure);
    lemma_first_overflow(plan);
    if plan.first_overflow() is None && plan.parts() > 0 {
        assert(blank.wf());
        lemma_dispatch(blank);
    }
}

/// Every event keeps the state well formed, and none changes the plan.
pub proof fn lemma_next_wf(state: EngineState, event: Event)
    requires
        state.wf(),
    ensures
        state.next(event).0.wf(),
        state.next(event).0.plan == state.plan,
{
    if state.status is Running {
        match event {
            Event::TransferDone { part, outcome } => {
                if part < state.phases.len() {
                    match state.phases[part as int] {
                        ChunkPhase::Transferring { retries } => match outcome {
                            Ok(headers) => {
                                lemma_succeed(state, part as int, headers);
                            },
                            Err(failure) => {
                                lemma_holders_update(
                                    state.phases,
                                    part as int,
                                    ChunkPhase::BackingOff { retries },
                                    Pool::Primary,
                                );
                                lemma_holders_update(
                                    state.phases,
                                    part as int,
                                    ChunkPhase::BackingOff { retries },
                                    Pool::Failure,
                                );
                            },
                        },
                        _ => {},
                    }
                }
            },
            Event::BackoffElapsed { part } => {
                if part < state.phases.len() {
                    match state.phases[part as int] {
                        ChunkPhase::BackingOff { retries } => {
                            let phase = ChunkPhase::Transferring { retries: (retries + 1) as usize };
                            lemma_holders_update(state.phases, part as int, phase, Pool::Primary);
                            lemma_holders_update(state.phases, part as int, phase, Pool::Failure);
                        },
                        _ => {},
                    }
                }
            },
            Event::TaskAborted { .. } => {},
        }
    }
}

/// After a success is filed and before pending chunks are let in, the
/// state is well formed.
pub proof fn lemma_filed_wf(state: EngineState, part: int, headers: Headers)
    requires
        state.wf(),
        state.status is Running,
        0 <= part < state.phases.len(),
        state.phases[part] is Transferring,
    ensures
        (EngineState {
            phases: state.phases.update(part, ChunkPhase::Succeeded),
            slots: state.slots.update(part, Some(headers)),
            in_flight: (state.in_flight - 1) as nat,
            ..state
        }).wf(),
{
    lemma_holders_update(state.phases, part, ChunkPhase::Succeeded, Pool::Primary);
    lemma_holders_update(state.phases, part, ChunkPhase::Succeeded, Pool::Failure);
}

/// Filing a success keeps the state well formed. It fills the slot of that
/// part and no other, marks that chunk as succeeded, and changes no other
/// chunk but pending ones, which it starts without a retry.
pub proof fn lemma_succeed(state: EngineState, part: int, headers: Headers)
    requires
        state.wf(),
        state.status is Running,
        0 <= part < state.phases.len(),
        state.phases[part] is Transferring,
    ensures
        state.succeed(part, headers).0.wf(),
        state.succeed(part, headers).0.plan == state.plan,
        state.succeed(part, headers).0.waiting == state.waiting,
        state.succeed(part, headers).0.slots == state.slots.update(part, Some(headers)),
        forall|i: int|
            0 <= i < state.next_pending ==> #[trigger] state.succeed(part, headers).0.phases[i]
                == (if i == part {
                ChunkPhase::Succeeded
            } else {
                state.phases[i]
            }),
        forall|i: int|
            state.next_pending <= i < state.phases.len() ==> (#[trigger] state.succeed(
                part,
                headers,
            ).0.phases[i] == ChunkPhase::Pending || state.succeed(part, headers).0.phases[i] == (
            ChunkPhase::Transferring { retries: 0 })),
{
    let filed = EngineState {
        phases: state.phases.update(part, ChunkPhase::Succeeded),
        slots: state.slots.update(part, Some(headers)),
        in_flight: (state.in_flight - 1) as nat,
        ..state
    };
    lemma_filed_wf(state, part, headers);
    if filed.next_pending == filed.plan.parts() && filed.in_flight == 0 {
        lemma_holders_bounds(filed.phases, Pool::Primary);
        let done = filed.with_status(Status::Completed);
        assert forall|i: int| 0 <= i < done.phases.len() implies (#[trigger] done.phases[i])
            is Succeeded by {
            assert(!done.phases[i].holds(Pool::Primary));
            assert(!(done.phases[i] is Pending));
        }
    } else {
        lemma_dispatch(filed);
    }
}

/// Every state that an upload can reach is well formed.
pub proof fn lemma_run_wf(plan: UploadPlan, events: Seq<Event>)
    requires
        plan.valid(),
    ensures
        EngineState::init(plan).0.run(events).wf(),
        EngineState::init(plan).0.run(events).plan == plan,
    decreases events.len(),
{
    lemma_init_wf(plan);
    if events.len() > 0 {
        lemma_run_wf(plan, events.drop_last());
        lemma_next_wf(EngineState::init(plan).0.run(events.drop_last()), events.last());
    }
}

/// Concurrency bound: whatever the driver reports and in whatever order, at
/// no time do more than `max_files` chunks hold a primary permit, nor more
/// than `parallel_failures` chunks a failure permit.
pub proof fn lemma_concurrency_bound(plan: UploadPlan, events: Seq<Event>)
    requires
        plan.valid(),
    ensures
        holders(EngineState::init(plan).0.run(events).phases, Pool::Primary) <= plan.max_files,
        holders(EngineState::init(plan).0.run(events).phases, Pool::Failure)
            <= plan.parallel_failures,
{
    lemma_run_wf(plan, events);
}

/// Whether the driver has reported that chunk `part` was transferred with
/// `headers`.
pub open spec fn delivered(events: Seq<Event>, part: int, headers: Headers) -> bool {
    exists|k: int|
        0 <= k < events.len() && #[trigger] events[k] == (Event::TransferDone {
            part: part as usize,
            outcome: Ok(headers),
        })
}

/// Whether every filed slot holds headers that were reported for its part.
pub open spec fn filed_as_delivered(state: EngineState, events: Seq<Event>) -> bool {
    forall|i: int|
        0 <= i < state.slots.len() ==> ((#[trigger] state.slots[i]) matches Some(headers)
            ==> delivered(events, i, headers))
}

/// Filled at most once: a slot that holds headers keeps them, whatever the
/// driver reports afterwards.
pub proof fn lemma_slot_filed_once(state: EngineState, event: Event, part: int)
    requires
        state.wf(),
        0 <= part < state.slots.len(),
        state.slots[part] is Some,
    ensures
        state.next(event).0.slots[part] == state.slots[part],
{
    lemma_next_slots(state, event);
    assert(state.phases[part] is Succeeded);
}

proof fn lemma_delivered_extends(events: Seq<Event>, event: Event, part: int, headers: Headers)
    requires
        delivered(events, part, headers),
    ensures
        delivered(events.push(event), part, headers),
{
    let k = choose|k: int|
        0 <= k < events.len() && #[trigger] events[k] == (Event::TransferDone {
            part: part as usize,
            outcome: Ok(headers),
        });
    assert(events.push(event)[k] == events[k]);
}

proof fn lemma_next_files_as_delivered(state: EngineState, events: Seq<Event>, event: Event)
    requires
        state.wf(),
        filed_as_delivered(state, events),
    ensures
        filed_as_delivered(state.next(event).0, events.push(event)),
{
    let after = state.next(event).0;
    let longer = events.push(event);
    assert forall|i: int| 0 <= i < after.slots.len() implies ((#[trigger] after.slots[i]) matches Some(
        headers,
    ) ==> delivered(longer, i, headers)) by {
        if after.slots[i] is Some {
            let headers = after.slots[i].unwrap();
            lemma_next_slots(state, event);
            if filed_by(state, event, i) {
                assert(longer[longer.len() - 1] == event);
            } else {
                assert(state.slots[i] == Some(headers));
                lemma_delivered_extends(events, event, i, headers);
            }
        }
    }
}

/// Whether `event` files headers in slot `i` of `state`.
pub open spec fn filed_by(state: EngineState, event: Event, i: int) -> bool {
    &&& state.status is Running
    &&& event matches Event::TransferDone { part, outcome: Ok(_) }
    &&& part == i
    &&& part < state.phases.len()
    &&& state.phases[part as int] is Transferring
}

/// An event changes at most one slot: a reported success of a chunk under
/// transfer files its headers under the part number of that chunk.
pub proof fn lemma_next_slots(state: EngineState, event: Event)
    requires
        state.wf(),
    ensures
        state.next(event).0.slots.len() == state.slots.len(),
        forall|i: int|
            0 <= i < state.slots.len() ==> #[trigger] state.next(event).0.slots[i] == (if filed_by(
                state,
                event,
                i,
            ) {
                Some(event->TransferDone_outcome.unwrap())
            } else {
                state.slots[i]
            }),
{
    if state.status is Running {
        if let Event::TransferDone { part, outcome } = event {
            if part < state.phases.len() && state.phases[part as int] is Transferring {
                if let Ok(sent) = outcome {
                    lemma_succeed(state, part as int, sent);
                }
            }
        }
    }
}

proof fn lemma_run_files_as_delivered(plan: UploadPlan, events: Seq<Event>)
    requires
        plan.valid(),
    ensures
        filed_as_delivered(EngineState::init(plan).0.run(events), events),
    decreases events.len(),
{
    let first = EngineState::init(plan).0;
    if events.len() == 0 {
        lemma_first_overflow(plan);
        if plan.first_overflow() is None && plan.parts() > 0 {
            lemma_blank_holds_nothing(plan, Pool::Primary);
            lemma_blank_holds_nothing(plan, Pool::Failure);
            lemma_dispatch(EngineState::blank(plan));
        }
        assert(first.slots == EngineState::blank(plan).slots);
    } else {
        lemma_run_files_as_delivered(plan, events.drop_last());
        lemma_run_wf(plan, events.drop_last());
        lemma_next_files_as_delivered(first.run(events.drop_last()), events.drop_last(), events.last());
        assert(events.drop_last().push(events.last()) =~= events);
    }
}

/// Results in part order: an upload that completes hands out one entry per
/// part, and entry `i` holds headers that the driver reported for part `i`,
/// in whatever order the transfers ended.
pub proof fn lemma_results_in_part_order(plan: UploadPlan, events: Seq<Event>)
    requires
        plan.valid(),
        EngineState::init(plan).0.run(events).status is Completed,
    ensures
        EngineState::init(plan).0.run(events).outcome() matches Some(Ok(results)) && {
            &&& results.len() == plan.parts()
            &&& forall|i: int| 0 <= i < results.len() ==> delivered(events, i, #[trigger] results[i])
        },
{
    let last = EngineState::init(plan).0.run(events);
    lemma_run_wf(plan, events);
    lemma_run_files_as_delivered(plan, events);
    let results = last.outcome().unwrap().unwrap();
    assert forall|i: int| 0 <= i < results.len() implies delivered(events, i, #[trigger] results[i]) by {
        assert(last.phases[i] is Succeeded);
        assert(last.slots[i] is Some);
    }
}

/// An upload that has failed hands out the error and nothing else, and one
/// that is under way hands out nothing.
pub proof fn lemma_no_partial_results(state: EngineState)
    ensures
        state.status matches Status::Failed(error) ==> state.outcome() == Some(
            Err::<Seq<Headers>, UploadError>(error),
        ),
        state.status is Running ==> state.outcome() is None,
{
}

/// Whether no chunk of the state has made or is waiting for a retry.
pub open spec fn no_retry_recorded(state: EngineState) -> bool {
    forall|i: int|
        0 <= i < state.phases.len() ==> match #[trigger] state.phases[i] {
            ChunkPhase::Transferring { retries } => retries == 0,
            ChunkPhase::BackingOff { .. } => false,
            _ => true,
        }
}

/// With retries switched off, the first failed transfer ends the upload with
/// that failure, and nothing is waited for.
pub proof fn lemma_failure_ends_upload_when_switched_off(
    state: EngineState,
    part: usize,
    failure: TransferFailure,
)
    requires
        state.wf(),
        state.status is Running,
        state.plan.parallel_failures == 0,
        part < state.phases.len(),
        state.phases[part as int] is Transferring,
    ensures
        state.next(Event::TransferDone { part, outcome: Err(failure) }) == (
            state.with_status(Status::Failed(UploadError::Transfer { part, failure })),
            Seq::<Action>::empty(),
        ),
{
}

/// With retries switched off, no retry is ever recorded: in every state the
/// upload can reach, every chunk under way is at its first attempt and none
/// waits.
pub proof fn lemma_no_retry_when_switched_off(plan: UploadPlan, events: Seq<Event>)
    requires
        plan.valid(),
        plan.parallel_failures == 0,
    ensures
        no_retry_recorded(EngineState::init(plan).0.run(events)),
    decreases events.len(),
{
    let first = EngineState::init(plan).0;
    lemma_run_wf(plan, events);
    if events.len() == 0 {
        lemma_first_overflow(plan);
        if plan.first_overflow() is None && plan.parts() > 0 {
            lemma_blank_holds_nothing(plan, Pool::Primary);
            lemma_blank_holds_nothing(plan, Pool::Failure);
            lemma_dispatch(EngineState::blank(plan));
        }
    } else {
        let before = first.run(events.drop_last());
        let event = events.last();
        lemma_no_retry_when_switched_off(plan, events.drop_last());
        lemma_run_wf(plan, events.drop_last());
        if before.status is Running {
            if let Event::TransferDone { part, outcome } = event {
                if part < before.phases.len() && before.phases[part as int] is Transferring {
                    if let Ok(sent) = outcome {
                        lemma_succeed(before, part as int, sent);
                    }
                }
            }
        }
    }
}

/// Fail fast: where as many chunks wait to retry as the plan lets (and it
/// lets some), a retryable failure of another chunk ends the upload at once
/// with `FailureConcurrencyExceeded`. No wait is asked for.
pub proof fn lemma_saturated_gate_fails_fast(state: EngineState, part: usize, failure: TransferFailure)
    requires
        state.wf(),
        state.status is Running,
        state.plan.parallel_failures > 0,
        state.waiting == state.plan.parallel_failures,
        failure.retryable(),
        part < state.phases.len(),
        state.phases[part as int] is Transferring,
    ensures
        state.next(Event::TransferDone { part, outcome: Err(failure) }) == (
            state.with_status(
                Status::Failed(
                    UploadError::FailureConcurrencyExceeded {
                        part,
                        parallel_failures: state.plan.parallel_failures,
                        last: failure,
                    },
                ),
            ),
            Seq::<Action>::empty(),
        ),
{
}

/// The wait before a retry follows the backoff curve of the plan: a chunk
/// that may retry after `retries` retries is asked to wait
/// `min(base + retries², cap)` milliseconds, and nothing else is asked for.
pub proof fn lemma_wait_follows_curve(state: EngineState, part: usize, failure: TransferFailure)
    requires
        state.wf(),
        state.status is Running,
        failure.retryable(),
        state.waiting < state.plan.parallel_failures,
        part < state.phases.len(),
        state.phases[part as int] matches ChunkPhase::Transferring { retries } && retries
            < state.plan.max_retries,
    ensures
        state.next(Event::TransferDone { part, outcome: Err(failure) }).1 == seq![
            Action::Sleep {
                part,
                millis: state.plan.backoff.spec_wait(
                    state.phases[part as int]->Transferring_retries as nat,
                ) as usize,
            },
        ],
{
}

/// A chunk that fails when it has used up its retries ends the upload with
/// `RetriesExhausted`, provided it could still get a failure permit.
pub proof fn lemma_retries_exhausted(state: EngineState, part: usize, failure: TransferFailure)
    requires
        state.wf(),
        state.status is Running,
        failure.retryable(),
        state.waiting < state.plan.parallel_failures,
        part < state.phases.len(),
        state.phases[part as int] == (ChunkPhase::Transferring { retries: state.plan.max_retries }),
    ensures
        state.next(Event::TransferDone { part, outcome: Err(failure) }) == (
            state.with_status(
                Status::Failed(
                    UploadError::RetriesExhausted {
                        part,
                        max_retries: state.plan.max_retries,
                        last: failure,
                    },
                ),
            ),
            Seq::<Action>::empty(),
        ),
{
}

} // verus!
