//! The upload engine: the state machine of `model`, in executable form.
//!
//! A driver starts an engine from a plan, carries out the actions it is
//! handed, reports what came of them with `step`, and takes the outcome
//! once the engine has stopped running.

use crate::failure::{TransferFailure, UploadError};
use crate::headers::Headers;
use crate::laws::{
    lemma_blank_holds_nothing, lemma_filed_wf, lemma_init_wf, lemma_next_wf,
};
use crate::model::{lemma_holders_update, Action, ChunkPhase, EngineState, Event, Pool, Status};
use crate::permits::PermitPool;
use crate::plan::{lemma_first_overflow, UploadPlan};
use crate::retry::{decide_retry, RetryDecision};
use vstd::prelude::*;

verus! {

/// The state of one upload.
#[derive(Debug)]
pub struct Engine {
    plan: UploadPlan,
    phases: Vec<ChunkPhase>,
    slots: Vec<Option<Headers>>,
    primary: PermitPool,
    failures: PermitPool,
    next_pending: usize,
    status: Status,
}

impl View for Engine {
    type V = EngineState;

    closed spec fn view(&self) -> EngineState {
        EngineState {
            plan: self.plan,
            phases: self.phases@,
            slots: self.slots@,
            in_flight: self.primary.spec_in_use(),
            waiting: self.failures.spec_in_use(),
            next_pending: self.next_pending as nat,
            status: self.status,
        }
    }
}

impl Engine {
    /// The pools are as large as the plan says.
    pub closed spec fn pools_match_plan(&self) -> bool {
        &&& self.primary.spec_capacity() == self.plan.max_files
        &&& self.failures.spec_capacity() == self.plan.parallel_failures
    }

    /// What holds of every engine: its state is well formed and its pools
    /// are as large as the plan says.
    pub open spec fn wf(&self) -> bool {
        self@.wf() && self.pools_match_plan()
    }

    /// Starts an upload: the engine, and the transfers to begin with.
    pub fn start(plan: UploadPlan) -> (started: (Engine, Vec<Action>))
        requires
            plan.valid(),
        ensures
            started.0.wf(),
            (started.0@, started.1@) == EngineState::init(plan),
    {
        let count: usize = plan.part_count();
        let overflow = plan.first_overflowing_part();
        let chunk_size: u64 = plan.chunk_size;
        let mut phases: Vec<ChunkPhase> = Vec::new();
        let mut slots: Vec<Option<Headers>> = Vec::new();
        let mut made: usize = 0;
        while made < count
            invariant
                made <= count,
                phases@.len() == made,
                slots@.len() == made,
                forall|i: int| 0 <= i < made ==> #[trigger] phases@[i] == ChunkPhase::Pending,
                forall|i: int| 0 <= i < made ==> #[trigger] slots@[i] == None::<Headers>,
            decreases count - made,
        {
            phases.push(ChunkPhase::Pending);
            slots.push(None);
            made += 1;
        }
        let primary = PermitPool::new(plan.max_files);
        let failures = PermitPool::new(plan.parallel_failures);
        let ghost given = plan;
        let mut engine = Engine {
            plan,
            phases,
            slots,
            primary,
            failures,
            next_pending: 0,
            status: Status::Running,
        };
        proof {
            lemma_init_wf(given);
            assert(engine@ =~= EngineState::blank(given));
        }
        match overflow {
            Some(part) => {
                engine.status = Status::Failed(UploadError::OffsetOverflow { part, chunk_size });
                (engine, Vec::new())
            },
            None => {
                if count == 0 {
                    engine.status = Status::Completed;
                    (engine, Vec::new())
                } else {
                    proof {
                        lemma_first_overflow(given);
                        lemma_blank_holds_nothing(given, Pool::Primary);
                        lemma_blank_holds_nothing(given, Pool::Failure);
                    }
                    let actions = engine.dispatch();
                    (engine, actions)
                }
            },
        }
    }

    /// Takes in what the driver reports and answers with what to do next.
    pub fn step(&mut self, event: Event) -> (actions: Vec<Action>)
        requires
            old(self).wf(),
        ensures
            final(self).wf(),
            (final(self)@, actions@) == old(self)@.next(event),
    {
        proof {
            lemma_next_wf(self@, event);
        }
        if !self.is_running() {
            return Vec::new();
        }
        match event {
            Event::TransferDone { part, outcome } => {
                if part >= self.phases.len() {
                    return Vec::new();
                }
                match self.phases[part] {
                    ChunkPhase::Transferring { retries } => match outcome {
                        Ok(headers) => self.succeed(part, headers),
                        Err(failure) => self.fail_attempt(part, retries, failure),
                    },
                    _ => Vec::new(),
                }
            },
            Event::BackoffElapsed { part } => {
                if part >= self.phases.len() {
                    return Vec::new();
                }
                match self.phases[part] {
                    ChunkPhase::BackingOff { retries } => self.resume(part, retries),
                    _ => Vec::new(),
                }
            },
            Event::TaskAborted { part, message } => {
                self.status = Status::Failed(UploadError::TaskFailure { part, message });
                Vec::new()
            },
        }
    }

    /// Whether the upload is still under way.
    pub fn is_running(&self) -> (yes: bool)
        ensures
            yes == (self@.status is Running),
    {
        match self.status {
            Status::Running => true,
            _ => false,
        }
    }

    /// The plan the engine was started with.
    pub fn plan(&self) -> (plan: &UploadPlan)
        ensures
            *plan == self@.plan,
    {
        &self.plan
    }

    /// The number of chunks that hold a primary permit.
    pub fn in_flight(&self) -> (count: usize)
        ensures
            count == self@.in_flight,
    {
        self.primary.in_use()
    }

    /// The number of chunks that wait to retry.
    pub fn waiting(&self) -> (count: usize)
        ensures
            count == self@.waiting,
    {
        self.failures.in_use()
    }

    /// The phase of chunk `part`, if the plan has such a part.
    pub fn phase(&self, part: usize) -> (phase: Option<ChunkPhase>)
        ensures
            phase == (if part < self@.phases.len() {
                Some(self@.phases[part as int])
            } else {
                None
            }),
    {
        if part < self.phases.len() {
            Some(self.phases[part])
        } else {
            None
        }
    }

    /// Ends the upload: the headers of every part in part order if it has
    /// completed, the error if it has failed, and nothing if it is still
    /// under way. Headers filed before a failure are dropped.
    pub fn into_outcome(self) -> (outcome: Option<Result<Vec<Headers>, UploadError>>)
        requires
            self.wf(),
        ensures
            match outcome {
                None => self@.outcome() is None,
                Some(Ok(results)) => self@.outcome() == Some(
                    Ok::<Seq<Headers>, UploadError>(results@),
                ),
                Some(Err(error)) => self@.outcome() == Some(Err::<Seq<Headers>, UploadError>(error)),
            },
    {
        let ghost filed = self.slots@;
        proof {
            if self@.status is Completed {
                assert forall|i: int| 0 <= i < filed.len() implies (#[trigger] filed[i]) is Some by {
                    assert(self@.phases[i] is Succeeded);
                }
            }
        }
        let Engine { status, slots, .. } = self;
        match status {
            Status::Running => None,
            Status::Failed(error) => Some(Err(error)),
            Status::Completed => {
                let mut slots = slots;
                let mut backwards: Vec<Headers> = Vec::new();
                while slots.len() > 0
                    invariant
                        slots@.len() + backwards@.len() == filed.len(),
                        forall|i: int| 0 <= i < filed.len() ==> (#[trigger] filed[i]) is Some,
                        forall|i: int| 0 <= i < slots@.len() ==> #[trigger] slots@[i] == filed[i],
                        forall|i: int|
                            0 <= i < backwards@.len() ==> #[trigger] backwards@[i] == filed[filed.len()
                                - 1 - i].unwrap(),
                    decreases slots@.len(),
                {
                    match slots.pop() {
                        Some(Some(headers)) => {
                            backwards.push(headers);
                        },
                        _ => {
                            proof {
                                assert(filed[slots@.len() as int] is Some);
                            }
                            unreached::<()>();
                        },
                    }
                }
                let mut results: Vec<Headers> = Vec::new();
                while backwards.len() > 0
                    invariant
                        backwards@.len() + results@.len() == filed.len(),
                        forall|i: int|
                            0 <= i < backwards@.len() ==> #[trigger] backwards@[i] == filed[filed.len()
                                - 1 - i].unwrap(),
                        forall|i: int|
                            0 <= i < results@.len() ==> #[trigger] results@[i] == filed[i].unwrap(),
                    decreases backwards@.len(),
                {
                    match backwards.pop() {
                        Some(headers) => {
                            results.push(headers);
                        },
                        None => {},
                    }
                }
                proof {
                    assert(results@ =~= Seq::new(filed.len(), |i: int| filed[i].unwrap()));
                }
                Some(Ok(results))
            },
        }
    }

    /// Lets pending chunks in while a primary permit is free.
    fn dispatch(&mut self) -> (actions: Vec<Action>)
        requires
            old(self).wf(),
            old(self)@.status is Running,
        ensures
            final(self).pools_match_plan(),
            (final(self)@, actions@) == old(self)@.dispatch(),
    {
        let mut actions: Vec<Action> = Vec::new();
        while self.next_pending < self.phases.len() && self.primary.available() > 0
            invariant
                self.pools_match_plan(),
                self@.plan == old(self)@.plan,
                self@.plan.offsets_fit(),
                self@.phases.len() == self@.plan.parts(),
                self@.next_pending <= self@.phases.len(),
                self@.in_flight <= self@.plan.max_files,
                old(self)@.dispatch().0 == self@.dispatch().0,
                old(self)@.dispatch().1 == actions@ + self@.dispatch().1,
            decreases self.phases.len() - self.next_pending,
        {
            let ghost before = self@;
            let part: usize = self.next_pending;
            match self.plan.chunk_task(part) {
                Ok(task) => {
                    self.primary.try_acquire();
                    self.phases.set(part, ChunkPhase::Transferring { retries: 0 });
                    self.next_pending = part + 1;
                    proof {
                        assert(before.can_start());
                        assert(self@ =~= before.start_next());
                        assert(actions@.push(Action::StartTransfer(task)) + self@.dispatch().1
                            =~= actions@ + before.dispatch().1);
                    }
                    actions.push(Action::StartTransfer(task));
                },
                Err(_) => {
                    unreached::<()>();
                },
            }
        }
        proof {
            assert(!self@.can_start());
            assert(actions@ + self@.dispatch().1 =~= actions@);
        }
        actions
    }

    /// Files the headers of chunk `part` and frees its permit.
    fn succeed(&mut self, part: usize, headers: Headers) -> (actions: Vec<Action>)
        requires
            old(self).wf(),
            old(self)@.status is Running,
            part < old(self)@.phases.len(),
            old(self)@.phases[part as int] is Transferring,
        ensures
            final(self).pools_match_plan(),
            (final(self)@, actions@) == old(self)@.succeed(part as int, headers),
    {
        proof {
            lemma_holders_update(self@.phases, part as int, ChunkPhase::Succeeded, Pool::Primary);
        }
        let ghost before = self@;
        self.phases.set(part, ChunkPhase::Succeeded);
        self.slots.set(part, Some(headers));
        self.primary.release();
        let ghost filed = self@;
        proof {
            assert(filed =~= (EngineState {
                phases: before.phases.update(part as int, ChunkPhase::Succeeded),
                slots: before.slots.update(part as int, Some(headers)),
                in_flight: (before.in_flight - 1) as nat,
                ..before
            }));
        }
        if self.next_pending == self.phases.len() && self.primary.in_use() == 0 {
            self.status = Status::Completed;
            proof {
                assert(self@ =~= filed.with_status(Status::Completed));
            }
            Vec::new()
        } else {
            proof {
                lemma_filed_wf(before, part as int, headers);
            }
            self.dispatch()
        }
    }

    /// Lets chunk `part` wait for a retry, or ends the upload.
    fn fail_attempt(&mut self, part: usize, retries: usize, failure: TransferFailure) -> (actions:
        Vec<Action>)
        requires
            old(self).wf(),
            old(self)@.status is Running,
            part < old(self)@.phases.len(),
            old(self)@.phases[part as int] == (ChunkPhase::Transferring { retries }),
        ensures
            final(self).pools_match_plan(),
            (final(self)@, actions@) == old(self)@.fail_attempt(part, retries, failure),
    {
        let ghost before = self@;
        let slot_free: bool = self.failures.available() > 0;
        match decide_retry(&self.plan, part, retries, failure, slot_free) {
            RetryDecision::Abort(error) => {
                self.status = Status::Failed(error);
                proof {
                    assert(self@ =~= before.with_status(Status::Failed(error)));
                }
                Vec::new()
            },
            RetryDecision::Backoff { millis } => {
                self.failures.try_acquire();
                self.phases.set(part, ChunkPhase::BackingOff { retries });
                let mut actions: Vec<Action> = Vec::new();
                actions.push(Action::Sleep { part, millis });
                proof {
                    assert(self@ =~= (EngineState {
                        phases: before.phases.update(part as int, ChunkPhase::BackingOff { retries }),
                        waiting: before.waiting + 1,
                        ..before
                    }));
                    assert(actions@ =~= seq![Action::Sleep { part, millis }]);
                }
                actions
            },
        }
    }

    /// Sends chunk `part` on its next retry.
    fn resume(&mut self, part: usize, retries: usize) -> (actions: Vec<Action>)
        requires
            old(self).wf(),
            old(self)@.status is Running,
            part < old(self)@.phases.len(),
            old(self)@.phases[part as int] == (ChunkPhase::BackingOff { retries }),
        ensures
            final(self).pools_match_plan(),
            (final(self)@, actions@) == old(self)@.resume(part, retries),
    {
        let ghost before = self@;
        proof {
            lemma_holders_update(
                self@.phases,
                part as int,
                ChunkPhase::Transferring { retries: (retries + 1) as usize },
                Pool::Failure,
            );
        }
        let mut actions: Vec<Action> = Vec::new();
        match self.plan.chunk_task(part) {
            Ok(task) => {
                self.failures.release();
                self.phases.set(part, ChunkPhase::Transferring { retries: retries + 1 });
                actions.push(Action::StartTransfer(task));
                proof {
                    assert(self@ =~= before.resume(part, retries).0);
                    assert(actions@ =~= before.resume(part, retries).1);
                }
            },
            Err(_) => {
                unreached::<()>();
            },
        }
        actions
    }
}

} // verus!
