//! The upload as a state machine: its states, the events that move it and
//! the actions it answers with.
//!
//! The machine lets chunks in in part order while permits are free, files each
//! success under its part number, lets a failed chunk wait and retry within
//! the limits of the plan, and ends with the first failure that is final.

use crate::failure::{TransferFailure, UploadError};
use crate::headers::Headers;
use crate::plan::{ChunkTask, UploadPlan};
use crate::retry::{retry_decision, RetryDecision};
use vstd::prelude::*;

verus! {

/// Where one chunk stands.
#[derive(Clone, Copy, Debug, PartialEq, Eq, Structural)]
pub enum ChunkPhase {
    /// Not started yet.
    Pending,
    /// Admitted, with a transfer under way after `retries` retries.
    Transferring { retries: usize },
    /// Admitted, waiting to retry after `retries` retries.
    BackingOff { retries: usize },
    /// Transferred. Its headers are filed.
    Succeeded,
}

/// The two pools of permits.
#[derive(Clone, Copy, Debug, PartialEq, Eq, Structural)]
pub enum Pool {
    /// Bounds the chunks that are being worked on.
    Primary,
    /// Bounds the chunks that wait to retry.
    Failure,
}

impl ChunkPhase {
    /// Whether a chunk in this phase holds a permit of `pool`. An started
    /// chunk holds its primary permit until it has succeeded, also while it
    /// waits.
    pub open spec fn holds(self, pool: Pool) -> bool {
        match pool {
            Pool::Primary => self is Transferring || self is BackingOff,
            Pool::Failure => self is BackingOff,
        }
    }
}

/// Whether the upload is under way, and how it ended if it is not.
#[derive(Clone, Debug, PartialEq, Eq)]
pub enum Status {
    Running,
    Completed,
    Failed(UploadError),
}

/// What the driver reports.
#[derive(Debug)]
pub enum Event {
    /// A transfer of chunk `part` has ended.
    TransferDone { part: usize, outcome: Result<Headers, TransferFailure> },
    /// The wait of chunk `part` is over.
    BackoffElapsed { part: usize },
    /// The task that worked on chunk `part` ended abnormally.
    TaskAborted { part: usize, message: String },
}

/// What the driver is asked to do.
#[derive(Clone, Debug, PartialEq, Eq)]
pub enum Action {
    /// Transfer this chunk and report `TransferDone`.
    StartTransfer(ChunkTask),
    /// Wait `millis` milliseconds and report `BackoffElapsed` for `part`.
    Sleep { part: usize, millis: usize },
}

/// The number of chunks that hold a permit of `pool`.
pub open spec fn holders(phases: Seq<ChunkPhase>, pool: Pool) -> nat
    decreases phases.len(),
{
    if phases.len() == 0 {
        0
    } else {
        holders(phases.drop_last(), pool) + if phases.last().holds(pool) {
            1nat
        } else {
            0nat
        }
    }
}

/// A state of the upload.
#[verifier::ext_equal]
pub struct EngineState {
    pub plan: UploadPlan,
    /// The phase of each chunk, by part number.
    pub phases: Seq<ChunkPhase>,
    /// The headers of each chunk that has succeeded, by part number.
    pub slots: Seq<Option<Headers>>,
    /// Primary permits taken.
    pub in_flight: nat,
    /// Failure permits taken.
    pub waiting: nat,
    /// The first part that is not started yet.
    pub next_pending: nat,
    pub status: Status,
}

impl EngineState {
    /// The state in which nothing has happened yet.
    pub open spec fn blank(plan: UploadPlan) -> EngineState {
        EngineState {
            plan,
            phases: Seq::new(plan.parts(), |i: int| ChunkPhase::Pending),
            slots: Seq::new(plan.parts(), |i: int| None::<Headers>),
            in_flight: 0,
            waiting: 0,
            next_pending: 0,
            status: Status::Running,
        }
    }

    /// This state with another status.
    pub open spec fn with_status(self, status: Status) -> EngineState {
        EngineState { status, ..self }
    }

    /// Whether a pending chunk can be let in: there is one, and a primary
    /// permit is free.
    pub open spec fn can_start(self) -> bool {
        self.in_flight < self.plan.max_files && self.next_pending < self.plan.parts()
    }

    /// The state after the next pending chunk has taken a primary permit.
    pub open spec fn start_next(self) -> EngineState {
        EngineState {
            phases: self.phases.update(
                self.next_pending as int,
                ChunkPhase::Transferring { retries: 0 },
            ),
            in_flight: self.in_flight + 1,
            next_pending: self.next_pending + 1,
            ..self
        }
    }

    /// Lets pending chunks in, in part order, for as long as a primary
    /// permit is free, and asks for a transfer of each.
    pub open spec fn dispatch(self) -> (EngineState, Seq<Action>)
        decreases self.plan.parts() - self.next_pending,
    {
        if self.can_start() {
            let rest = self.start_next().dispatch();
            (
                rest.0,
                seq![Action::StartTransfer(self.plan.task(self.next_pending as int))] + rest.1,
            )
        } else {
            (self, Seq::empty())
        }
    }

    /// The first state of an upload, and the transfers to start with. A plan
    /// with a part whose offset does not fit in 64 bits fails before
    /// anything is sent, and a plan without parts is complete at once.
    pub open spec fn init(plan: UploadPlan) -> (EngineState, Seq<Action>) {
        match plan.first_overflow() {
            Some(part) => (
                Self::blank(plan).with_status(
                    Status::Failed(UploadError::OffsetOverflow { part, chunk_size: plan.chunk_size }),
                ),
                Seq::empty(),
            ),
            None => if plan.parts() == 0 {
                (Self::blank(plan).with_status(Status::Completed), Seq::empty())
            } else {
                Self::blank(plan).dispatch()
            },
        }
    }

    /// Chunk `part` has been transferred: its headers are filed under its
    /// part number and its permit is free again. That completes the upload
    /// if it was the last chunk, and lets pending chunks in otherwise.
    pub open spec fn succeed(self, part: int, headers: Headers) -> (EngineState, Seq<Action>) {
        let filed = EngineState {
            phases: self.phases.update(part, ChunkPhase::Succeeded),
            slots: self.slots.update(part, Some(headers)),
            in_flight: (self.in_flight - 1) as nat,
            ..self
        };
        if filed.next_pending == filed.plan.parts() && filed.in_flight == 0 {
            (filed.with_status(Status::Completed), Seq::empty())
        } else {
            filed.dispatch()
        }
    }

    /// A transfer of chunk `part` has failed after `retries` retries: the
    /// chunk either takes a failure permit and waits, or ends the upload.
    pub open spec fn fail_attempt(self, part: usize, retries: usize, failure: TransferFailure) -> (
        EngineState,
        Seq<Action>,
    ) {
        match retry_decision(
            self.plan,
            part,
            retries,
            failure,
            self.waiting < self.plan.parallel_failures,
        ) {
            RetryDecision::Abort(error) => (self.with_status(Status::Failed(error)), Seq::empty()),
            RetryDecision::Backoff { millis } => (
                EngineState {
                    phases: self.phases.update(part as int, ChunkPhase::BackingOff { retries }),
                    waiting: self.waiting + 1,
                    ..self
                },
                seq![Action::Sleep { part, millis }],
            ),
        }
    }

    /// The wait of chunk `part` is over: it gives its failure permit back
    /// and tries again, one retry further.
    pub open spec fn resume(self, part: usize, retries: usize) -> (EngineState, Seq<Action>) {
        (
            EngineState {
                phases: self.phases.update(
                    part as int,
                    ChunkPhase::Transferring { retries: (retries + 1) as usize },
                ),
                waiting: (self.waiting - 1) as nat,
                ..self
            },
            seq![Action::StartTransfer(self.plan.task(part as int))],
        )
    }

    /// The state after `event`, and the actions to take. An upload that has
    /// ended stays as it is, and so does one that is told of a transfer or a
    /// wait that is not under way.
    pub open spec fn next(self, event: Event) -> (EngineState, Seq<Action>) {
        if !(self.status is Running) {
            (self, Seq::empty())
        } else {
            match event {
                Event::TransferDone { part, outcome } => {
                    if part < self.phases.len() {
                        match self.phases[part as int] {
                            ChunkPhase::Transferring { retries } => match outcome {
                                Ok(headers) => self.succeed(part as int, headers),
                                Err(failure) => self.fail_attempt(part, retries, failure),
                            },
                            _ => (self, Seq::empty()),
                        }
                    } else {
                        (self, Seq::empty())
                    }
                },
                Event::BackoffElapsed { part } => {
                    if part < self.phases.len() {
                        match self.phases[part as int] {
                            ChunkPhase::BackingOff { retries } => self.resume(part, retries),
                            _ => (self, Seq::empty()),
                        }
                    } else {
                        (self, Seq::empty())
                    }
                },
                Event::TaskAborted { part, message } => (
                    self.with_status(Status::Failed(UploadError::TaskFailure { part, message })),
                    Seq::empty(),
                ),
            }
        }
    }

    /// The state after a run of events.
    pub open spec fn run(self, events: Seq<Event>) -> EngineState
        decreases events.len(),
    {
        if events.len() == 0 {
            self
        } else {
            self.run(events.drop_last()).next(events.last()).0
        }
    }

    /// What the caller gets once the upload has ended: the headers of every
    /// part in part order, or the error. Nothing while it is under way.
    pub open spec fn outcome(self) -> Option<Result<Seq<Headers>, UploadError>> {
        match self.status {
            Status::Running => None,
            Status::Completed => Some(
                Ok(Seq::new(self.slots.len(), |i: int| self.slots[i].unwrap())),
            ),
            Status::Failed(error) => Some(Err(error)),
        }
    }

    /// What holds of every state that an upload can be in.
    pub open spec fn wf(self) -> bool {
        &&& self.plan.valid()
        &&& self.phases.len() == self.plan.parts()
        &&& self.slots.len() == self.plan.parts()
        &&& self.next_pending <= self.plan.parts()
        &&& self.in_flight == holders(self.phases, Pool::Primary)
        &&& self.waiting == holders(self.phases, Pool::Failure)
        &&& self.in_flight <= self.plan.max_files
        &&& self.waiting <= self.plan.parallel_failures
        &&& forall|i: int|
            0 <= i < self.phases.len() ==> ((#[trigger] self.phases[i]) is Pending <==> i
                >= self.next_pending)
        &&& forall|i: int|
            0 <= i < self.phases.len() ==> ((#[trigger] self.phases[i]) is Succeeded
                <==> self.slots[i] is Some)
        &&& forall|i: int|
            0 <= i < self.phases.len() ==> match #[trigger] self.phases[i] {
                ChunkPhase::Transferring { retries } => retries <= self.plan.max_retries,
                ChunkPhase::BackingOff { retries } => retries < self.plan.max_retries,
                _ => true,
            }
        &&& self.status is Running ==> self.plan.offsets_fit()
        &&& self.status is Completed ==> forall|i: int|
            0 <= i < self.phases.len() ==> (#[trigger] self.phases[i]) is Succeeded
    }
}

/// Changing the phase of one chunk changes the number of holders by what
/// that chunk held and holds.
pub proof fn lemma_holders_update(phases: Seq<ChunkPhase>, at: int, phase: ChunkPhase, pool: Pool)
    requires
        0 <= at < phases.len(),
    ensures
        holders(phases.update(at, phase), pool) + (if phases[at].holds(pool) {
            1nat
        } else {
            0nat
        }) == holders(phases, pool) + (if phase.holds(pool) {
            1nat
        } else {
            0nat
        }),
    decreases phases.len(),
{
    let updated = phases.update(at, phase);
    if at == phases.len() - 1 {
        assert(updated.drop_last() =~= phases.drop_last());
    } else {
        assert(updated.drop_last() =~= phases.drop_last().update(at, phase));
        lemma_holders_update(phases.drop_last(), at, phase, pool);
    }
}

/// There are at most as many holders as chunks, and where there is none, no
/// chunk holds a permit.
pub proof fn lemma_holders_bounds(phases: Seq<ChunkPhase>, pool: Pool)
    ensures
        holders(phases, pool) <= phases.len(),
        holders(phases, pool) == 0 ==> forall|i: int|
            0 <= i < phases.len() ==> !(#[trigger] phases[i]).holds(pool),
        (forall|i: int| 0 <= i < phases.len() ==> !(#[trigger] phases[i]).holds(pool))
            ==> holders(phases, pool) == 0,
    decreases phases.len(),
{
    if phases.len() > 0 {
        let front = phases.drop_last();
        lemma_holders_bounds(front, pool);
        if holders(phases, pool) == 0 {
            assert forall|i: int| 0 <= i < phases.len() implies !(#[trigger] phases[i]).holds(
                pool,
            ) by {
                if i < front.len() {
                    assert(front[i] == phases[i]);
                }
            }
        }
        if forall|i: int| 0 <= i < phases.len() ==> !(#[trigger] phases[i]).holds(pool) {
            assert forall|i: int| 0 <= i < front.len() implies !(#[trigger] front[i]).holds(
                pool,
            ) by {
                assert(front[i] == phases[i]);
            }
        }
    }
}

} // verus!
