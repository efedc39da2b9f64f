//! The worker's decisions: when to send a request, when to wait and reopen
//! the connection, and when a batch is done and counts.

use crate::plan::BatchPlan;
use crate::request::queued;
use vstd::prelude::*;

verus! {

/// Where a worker stands with the batch that it handles.
#[derive(Clone, Copy, PartialEq, Eq, Debug, Structural)]
pub enum Phase {
    /// No batch is in flight; the worker can begin one.
    Idle,
    /// The request was handed out to be sent; its result is awaited.
    Executing,
    /// The request failed; the worker waits and reopens its connection.
    Recovering,
    /// The request succeeded and the connection is due to be renewed.
    Renewing,
}

/// What happened outside since the last action.
#[derive(Clone, Copy, PartialEq, Eq, Debug, Structural)]
pub enum WorkerEvent {
    /// The request was sent; `ok` tells whether every write was confirmed.
    Executed { ok: bool },
    /// The connection was reopened, or could not be.
    Reopened { ok: bool },
}

/// What the worker is to do next.
#[derive(Clone, Copy, PartialEq, Eq, Debug, Structural)]
pub enum WorkerAction {
    /// Send the request in flight, then report `Executed`.
    Execute,
    /// Wait for the backoff interval, reopen the connection, then report
    /// `Reopened`.
    Backoff,
    /// Reopen the connection at once, then report `Reopened`.
    Renew,
    /// The batch is done: count it, and take the next one.
    Commit { inserted: u64, expired_on_arrival: u64 },
}

/// The request in flight, and what it counts for.
pub struct PlanView {
    pub writes: Seq<Seq<Seq<u8>>>,
    pub inserted: u64,
    pub expired_on_arrival: u64,
}

impl View for BatchPlan {
    type V = PlanView;

    open spec fn view(&self) -> PlanView {
        PlanView {
            writes: queued(self.request),
            inserted: self.inserted,
            expired_on_arrival: self.expired_on_arrival,
        }
    }
}

pub struct WorkerView {
    pub phase: Phase,
    /// The requests sent since the connection was last due, below `every`.
    pub sent: u64,
    /// The number of sent requests after which the connection is renewed.
    pub every: u64,
    /// The plan of the batch in flight; none when the worker is idle.
    pub in_flight: Option<PlanView>,
}

/// The action that ends a batch: it carries what the batch counts for.
pub open spec fn commit_of(plan: PlanView) -> WorkerAction {
    WorkerAction::Commit { inserted: plan.inserted, expired_on_arrival: plan.expired_on_arrival }
}

/// The worker after `event`, and what it is to do; none where the event does
/// not answer the worker's last action.
///
/// Every request that is sent counts towards the renewal of the connection.
/// A failed request is sent again, unchanged, after a wait and an attempt to
/// reopen the connection, as often as it takes. A request that succeeded ends
/// its batch, unless the connection is due: then the connection is renewed
/// first, and where that fails the request is sent again.
pub open spec fn next(w: WorkerView, event: WorkerEvent) -> Option<(WorkerView, WorkerAction)> {
    match (w.phase, event, w.in_flight) {
        (Phase::Executing, WorkerEvent::Executed { ok }, Some(plan)) => {
            let sent = ((w.sent + 1) % (w.every as int)) as u64;
            if !ok {
                Some((WorkerView { phase: Phase::Recovering, sent, ..w }, WorkerAction::Backoff))
            } else if sent == 0 {
                Some((WorkerView { phase: Phase::Renewing, sent, ..w }, WorkerAction::Renew))
            } else {
                Some(
                    (
                        WorkerView { phase: Phase::Idle, sent, in_flight: None, ..w },
                        commit_of(plan),
                    ),
                )
            }
        },
        (Phase::Recovering, WorkerEvent::Reopened { ok }, Some(plan)) => Some(
            (WorkerView { phase: Phase::Executing, ..w }, WorkerAction::Execute),
        ),
        (Phase::Renewing, WorkerEvent::Reopened { ok }, Some(plan)) => {
            if ok {
                Some((WorkerView { phase: Phase::Idle, in_flight: None, ..w }, commit_of(plan)))
            } else {
                Some((WorkerView { phase: Phase::Executing, ..w }, WorkerAction::Execute))
            }
        },
        _ => None,
    }
}

enum Stage {
    Idle,
    Executing(BatchPlan),
    Recovering(BatchPlan),
    Renewing(BatchPlan),
}

/// One worker of the pool.
pub struct Worker {
    stage: Stage,
    sent: u64,
    every: u64,
}

impl View for Worker {
    type V = WorkerView;

    closed spec fn view(&self) -> WorkerView {
        WorkerView {
            phase: match self.stage {
                Stage::Idle => Phase::Idle,
                Stage::Executing(_) => Phase::Executing,
                Stage::Recovering(_) => Phase::Recovering,
                Stage::Renewing(_) => Phase::Renewing,
            },
            sent: self.sent,
            every: self.every,
            in_flight: match self.stage {
                Stage::Idle => None,
                Stage::Executing(plan) => Some(plan@),
                Stage::Recovering(plan) => Some(plan@),
                Stage::Renewing(plan) => Some(plan@),
            },
        }
    }
}

/// True when `w` is a state that a worker can be in.
pub open spec fn well_formed(w: WorkerView) -> bool {
    &&& w.sent < w.every
    &&& (w.phase == Phase::Idle) == (w.in_flight is None)
}

impl Worker {
    #[verifier::type_invariant]
    spec fn counts_below_every(self) -> bool {
        self.sent < self.every
    }

    /// An idle worker that renews its connection after every `every` sent
    /// requests. There is none that renews after no request.
    pub fn new(every: u64) -> (r: Option<Worker>)
        ensures
            match r {
                Some(w) => every > 0 && w@ == (WorkerView {
                    phase: Phase::Idle,
                    sent: 0,
                    every,
                    in_flight: None,
                }),
                None => every == 0,
            },
    {
        if every == 0 {
            None
        } else {
            Some(Worker { stage: Stage::Idle, sent: 0, every })
        }
    }

    /// Where the worker stands.
    pub fn phase(&self) -> (p: Phase)
        ensures
            p == self@.phase,
            well_formed(self@),
    {
        proof {
            use_type_invariant(self);
        }
        match &self.stage {
            Stage::Idle => Phase::Idle,
            Stage::Executing(_) => Phase::Executing,
            Stage::Recovering(_) => Phase::Recovering,
            Stage::Renewing(_) => Phase::Renewing,
        }
    }

    /// The request in flight, to be sent as it is.
    pub fn request(&self) -> (r: Option<&redis::Pipeline>)
        ensures
            match r {
                Some(p) => self@.in_flight is Some && queued(*p) == self@.in_flight->Some_0.writes,
                None => self@.in_flight is None,
            },
    {
        match &self.stage {
            Stage::Idle => None,
            Stage::Executing(plan) => Some(&plan.request),
            Stage::Recovering(plan) => Some(&plan.request),
            Stage::Renewing(plan) => Some(&plan.request),
        }
    }

    /// Takes the plan of the next batch. An idle worker is then to send its
    /// request; a worker with a batch in flight hands the plan back.
    pub fn begin(&mut self, plan: BatchPlan) -> (r: Result<WorkerAction, BatchPlan>)
        ensures
            well_formed(final(self)@),
            match r {
                Ok(action) => {
                    &&& old(self)@.phase == Phase::Idle
                    &&& action == WorkerAction::Execute
                    &&& final(self)@ == (WorkerView {
                        phase: Phase::Executing,
                        in_flight: Some(plan@),
                        ..old(self)@
                    })
                },
                Err(back) => {
                    &&& old(self)@.phase != Phase::Idle
                    &&& back == plan
                    &&& final(self)@ == old(self)@
                },
            },
    {
        proof {
            use_type_invariant(&*self);
        }
        match &self.stage {
            Stage::Idle => {
                self.stage = Stage::Executing(plan);
                Ok(WorkerAction::Execute)
            },
            _ => Err(plan),
        }
    }

    /// Takes what happened and tells what to do next. An event that does not
    /// answer the worker's last action changes nothing.
    pub fn step(&mut self, event: WorkerEvent) -> (r: Option<WorkerAction>)
        ensures
            well_formed(final(self)@),
            match next(old(self)@, event) {
                Some((after, action)) => final(self)@ == after && r == Some(action),
                None => final(self)@ == old(self)@ && r is None,
            },
    {
        proof {
            use_type_invariant(&*self);
        }
        let mut stage: Stage = Stage::Idle;
        std::mem::swap(&mut self.stage, &mut stage);
        match (stage, event) {
            (Stage::Executing(plan), WorkerEvent::Executed { ok }) => {
                let sent: u64 = (self.sent + 1) % self.every;
                self.sent = sent;
                if !ok {
                    self.stage = Stage::Recovering(plan);
                    Some(WorkerAction::Backoff)
                } else if sent == 0 {
                    self.stage = Stage::Renewing(plan);
                    Some(WorkerAction::Renew)
                } else {
                    Some(
                        WorkerAction::Commit {
                            inserted: plan.inserted,
                            expired_on_arrival: plan.expired_on_arrival,
                        },
                    )
                }
            },
            (Stage::Recovering(plan), WorkerEvent::Reopened { ok }) => {
                self.stage = Stage::Executing(plan);
                Some(WorkerAction::Execute)
            },
            (Stage::Renewing(plan), WorkerEvent::Reopened { ok }) => {
                if ok {
                    Some(
                        WorkerAction::Commit {
                            inserted: plan.inserted,
                            expired_on_arrival: plan.expired_on_arrival,
                        },
                    )
                } else {
                    self.stage = Stage::Executing(plan);
                    Some(WorkerAction::Execute)
                }
            },
            (stage, _) => {
                self.stage = stage;
                None
            },
        }
    }
}

/// Retry: a request that failed is sent again as it was, whether or not the
/// connection could be reopened, and its batch is not counted meanwhile.
pub proof fn lemma_failed_request_is_sent_again(w: WorkerView, reopened: bool)
    requires
        well_formed(w),
        w.phase == Phase::Executing,
    ensures
        ({
            let failed = next(w, WorkerEvent::Executed { ok: false });
            let again = next(failed->Some_0.0, WorkerEvent::Reopened { ok: reopened });
            &&& failed is Some
            &&& failed->Some_0.1 == WorkerAction::Backoff
            &&& again is Some
            &&& again->Some_0.1 == WorkerAction::Execute
            &&& again->Some_0.0.phase == Phase::Executing
            &&& again->Some_0.0.in_flight == w.in_flight
        }),
{
}

/// A batch is counted once, and only after its request was sent with
/// success: whatever the event, a worker commits only as it becomes idle, and
/// what it commits is what the plan in flight counts for.
pub proof fn lemma_commit_ends_the_batch(w: WorkerView, event: WorkerEvent)
    requires
        well_formed(w),
        next(w, event) is Some,
    ensures
        ({
            let after = next(w, event)->Some_0.0;
            let action = next(w, event)->Some_0.1;
            &&& well_formed(after)
            &&& w.in_flight is Some
            &&& (action is Commit) == (after.phase == Phase::Idle)
            &&& action is Commit ==> action == commit_of(w.in_flight->Some_0) && event
                != (WorkerEvent::Executed { ok: false })
            &&& !(action is Commit) ==> after.in_flight == w.in_flight
        }),
{
}

} // verus!
