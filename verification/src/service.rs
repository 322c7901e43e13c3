//! The service that runs a tracker for others: what each message makes it do, which
//! statistics it publishes, and when it stops.
//!
//! A [`Worker`] takes one message at a time. What a message sets off is carried out
//! step by step, as the tracker has it, until the worker is idle again.

use crate::signal::MarketSnapshot;
use crate::tracker::{
    begin, close_next, final_resumed, resumed, Action, BacktestTracker, Event, FinalRunState,
    FinalStage, FinalizeRun, RunState, Step, TrackerState, UpdateRun,
};
use vstd::prelude::*;
use vstd::string::*;

verus! {

/// What is asked of the service.
#[derive(Debug)]
pub enum Message {
    /// A market has new prices. `has_all_prices` says whether each leg has one.
    ProcessUpdate { snapshot: MarketSnapshot, has_all_prices: bool, description: String },
    /// The session is over.
    Finalize,
    /// The statistics are wanted.
    GetStats,
    /// The identifier of the session is wanted.
    GetSessionId,
}

/// What the driver of the service is to do next.
#[derive(Debug)]
pub enum Order {
    /// Carry out this action, and answer with what came of it.
    Perform { action: Action },
    /// Nothing more for this update. Where it failed, that is to be told.
    UpdateDone { failed: bool },
    /// Send these statistics to who asked for them.
    SendStats { stats: (u64, u64, u64, u64) },
    /// Send this identifier to who asked for it.
    SendSessionId { session_id: String },
    /// Take no more messages. Where ending the session failed, that is to be told.
    Stop { failed: bool },
    /// Take no more messages: a count or a difference does not fit its type.
    Break,
    /// Nothing: the message or the answer is not expected now.
    Refuse,
}

/// What a worker is at.
pub enum WorkState {
    Idle,
    Updating { run: RunState },
    Finalizing { ending: FinalRunState },
    Stopped,
    Broken,
}

/// The contents of a worker.
pub struct WorkerState {
    pub tracker: TrackerState,
    pub published: (u64, u64, u64, u64),
    pub work: WorkState,
}

/// The statistics of a tracker: opportunities detected, confirmed and slipped, and
/// samples taken.
pub open spec fn counters(t: TrackerState) -> (u64, u64, u64, u64) {
    (t.total_detected, t.total_confirmed, t.total_slipped, t.snapshot_count)
}

impl WorkerState {
    /// What holds of a worker at all times: its tracker and the run in progress
    /// agree, and but for an update in progress or a broken worker the published
    /// statistics are those of the tracker.
    pub open spec fn wf(self) -> bool {
        match self.work {
            WorkState::Updating { run } => run.valid(self.tracker),
            WorkState::Finalizing { ending: run } => run.valid(self.tracker) && self.published == counters(
                self.tracker,
            ),
            WorkState::Broken => self.tracker.wf(),
            _ => self.tracker.wf() && self.published == counters(self.tracker),
        }
    }
}

/// A worker, and the order that it gives.
pub struct Served {
    pub worker: WorkerState,
    pub order: Order,
}

/// What a worker makes of a step of a price update. The statistics are published
/// when the update is over, also where it failed.
pub open spec fn after_update_step(w: WorkerState, step: Step) -> Served {
    match step.action {
        Action::Finished => Served {
            worker: WorkerState {
                tracker: step.tracker,
                published: counters(step.tracker),
                work: WorkState::Idle,
            },
            order: Order::UpdateDone { failed: false },
        },
        Action::Aborted => Served {
            worker: WorkerState {
                tracker: step.tracker,
                published: counters(step.tracker),
                work: WorkState::Idle,
            },
            order: Order::UpdateDone { failed: true },
        },
        Action::OutOfRange => Served {
            worker: WorkerState { tracker: step.tracker, work: WorkState::Broken, ..w },
            order: Order::Break,
        },
        action => Served {
            worker: WorkerState {
                tracker: step.tracker,
                work: WorkState::Updating { run: step.run },
                ..w
            },
            order: Order::Perform { action },
        },
    }
}

/// What a worker makes of a step of the end of the session.
pub open spec fn after_final_step(
    w: WorkerState,
    tracker: TrackerState,
    run: FinalRunState,
    action: Action,
) -> Served {
    match action {
        Action::Finished => Served {
            worker: WorkerState { tracker, work: WorkState::Stopped, ..w },
            order: Order::Stop { failed: false },
        },
        Action::Aborted => Served {
            worker: WorkerState { tracker, work: WorkState::Stopped, ..w },
            order: Order::Stop { failed: true },
        },
        action => Served {
            worker: WorkerState { tracker, work: WorkState::Finalizing { ending: run }, ..w },
            order: Order::Perform { action },
        },
    }
}

/// What a message makes an idle worker do. `order` is the order itself, where it
/// carries the identifier of the session as an owned text.
pub open spec fn received(w: WorkerState, message: Message, now_ns: u64, order: Order) -> Served {
    if !(w.work is Idle) {
        Served { worker: w, order: Order::Refuse }
    } else {
        match message {
            Message::ProcessUpdate { snapshot, has_all_prices, description } => after_update_step(
                w,
                begin(w.tracker, snapshot, has_all_prices, description, now_ns),
            ),
            Message::Finalize => {
                let step = close_next(
                    w.tracker,
                    FinalRunState { now_ns, stage: FinalStage::Ended },
                    0,
                );
                after_final_step(w, step.tracker, step.run, step.action)
            },
            Message::GetStats => Served {
                worker: w,
                order: Order::SendStats { stats: counters(w.tracker) },
            },
            Message::GetSessionId => Served { worker: w, order },
        }
    }
}

/// What the answer to an action makes a worker do.
pub open spec fn answered(w: WorkerState, event: Event) -> Served {
    match w.work {
        WorkState::Updating { run } => after_update_step(w, resumed(w.tracker, run, event)),
        WorkState::Finalizing { ending: run } => {
            let step = final_resumed(w.tracker, run, event);
            after_final_step(w, step.tracker, step.run, step.action)
        },
        _ => Served { worker: w, order: Order::Refuse },
    }
}

/// What a worker is at.
enum Work {
    Idle,
    Updating { run: UpdateRun },
    Finalizing { ending: FinalizeRun },
    Stopped,
    Broken,
}

/// A tracker at the service of others.
pub struct Worker {
    tracker: BacktestTracker,
    published: (u64, u64, u64, u64),
    work: Work,
}

impl View for Worker {
    type V = WorkerState;

    closed spec fn view(&self) -> WorkerState {
        WorkerState {
            tracker: self.tracker@,
            published: self.published,
            work: match self.work {
                Work::Idle => WorkState::Idle,
                Work::Updating { run } => WorkState::Updating { run: run@ },
                Work::Finalizing { ending } => WorkState::Finalizing { ending: ending@ },
                Work::Stopped => WorkState::Stopped,
                Work::Broken => WorkState::Broken,
            },
        }
    }
}

impl Worker {
    /// An idle worker for a session that has seen nothing yet. All statistics are
    /// zero.
    pub fn new(session_id: &str) -> (worker: Self)
        ensures
            worker@.wf(),
            worker@.work is Idle,
            worker@.published == (0u64, 0u64, 0u64, 0u64),
            worker@.tracker.session_id == session_id@,
            worker@.tracker.active.len() == 0,
            worker@.tracker.last_snapshot_ns == Map::<u16, u64>::empty(),
    {
        Worker {
            tracker: BacktestTracker::new(session_id),
            published: (0, 0, 0, 0),
            work: Work::Idle,
        }
    }

    /// The statistics that were last published.
    pub fn published(&self) -> (stats: (u64, u64, u64, u64))
        ensures
            stats == self@.published,
    {
        self.published
    }

    /// Whether the worker waits for a message.
    pub fn is_idle(&self) -> (yes: bool)
        ensures
            yes == (self@.work is Idle),
    {
        match self.work {
            Work::Idle => true,
            _ => false,
        }
    }

    /// Goes on with a price update after a step of it.
    fn go_on_updating(&mut self, run: UpdateRun, action: Action) -> (order: Order)
        ensures
            (Served { worker: final(self)@, order }) == after_update_step(
                old(self)@,
                Step { tracker: old(self)@.tracker, run: run@, action },
            ),
    {
        match action {
            Action::Finished => {
                self.published = self.tracker.stats();
                self.work = Work::Idle;
                Order::UpdateDone { failed: false }
            },
            Action::Aborted => {
                self.published = self.tracker.stats();
                self.work = Work::Idle;
                Order::UpdateDone { failed: true }
            },
            Action::OutOfRange => {
                self.work = Work::Broken;
                Order::Break
            },
            action => {
                self.work = Work::Updating { run };
                Order::Perform { action }
            },
        }
    }

    /// Goes on with the end of the session after a step of it.
    fn go_on_finalizing(&mut self, run: FinalizeRun, action: Action) -> (order: Order)
        ensures
            (Served { worker: final(self)@, order }) == after_final_step(
                old(self)@,
                old(self)@.tracker,
                run@,
                action,
            ),
    {
        match action {
            Action::Finished => {
                self.work = Work::Stopped;
                Order::Stop { failed: false }
            },
            Action::Aborted => {
                self.work = Work::Stopped;
                Order::Stop { failed: true }
            },
            action => {
                self.work = Work::Finalizing { ending: run };
                Order::Perform { action }
            },
        }
    }

    /// Takes a message at `now_ns`. A worker that is not idle refuses it.
    pub fn receive(&mut self, message: Message, now_ns: u64) -> (order: Order)
        requires
            old(self)@.wf(),
        ensures
            final(self)@.wf(),
            (Served { worker: final(self)@, order }) == received(
                old(self)@,
                message,
                now_ns,
                order,
            ),
            old(self)@.work is Idle && message is GetSessionId ==> (order matches
                Order::SendSessionId { session_id } && session_id@
                == old(self)@.tracker.session_id),
    {
        match self.work {
            Work::Idle => {},
            _ => {
                return Order::Refuse;
            },
        }
        match message {
            Message::ProcessUpdate { snapshot, has_all_prices, description } => {
                let (run, action) = self.tracker.begin_update(
                    &snapshot,
                    has_all_prices,
                    description,
                    now_ns,
                );
                self.go_on_updating(run, action)
            },
            Message::Finalize => {
                let (run, action) = self.tracker.finalize(now_ns);
                self.go_on_finalizing(run, action)
            },
            Message::GetStats => Order::SendStats { stats: self.tracker.stats() },
            Message::GetSessionId => Order::SendSessionId {
                session_id: self.tracker.session_id().to_owned(),
            },
        }
    }

    /// Takes what came of the last action. A worker that waits for no answer
    /// refuses it.
    pub fn answer(&mut self, event: Event) -> (order: Order)
        requires
            old(self)@.wf(),
        ensures
            final(self)@.wf(),
            (Served { worker: final(self)@, order }) == answered(old(self)@, event),
    {
        let mut work: Work = Work::Idle;
        std::mem::swap(&mut work, &mut self.work);
        match work {
            Work::Updating { run } => {
                let mut run: UpdateRun = run;
                let action: Action = self.tracker.resume(&mut run, event);
                self.go_on_updating(run, action)
            },
            Work::Finalizing { ending: run } => {
                let mut run: FinalizeRun = run;
                let action: Action = self.tracker.resume_finalize(&mut run, event);
                self.go_on_finalizing(run, action)
            },
            other => {
                self.work = other;
                Order::Refuse
            },
        }
    }
}

/// A worker that has stopped, or has broken, takes no message and no answer any
/// more, and changes nothing.
pub proof fn stopped_worker_stays_stopped(
    w: WorkerState,
    message: Message,
    now_ns: u64,
    order: Order,
    event: Event,
)
    requires
        w.work is Stopped || w.work is Broken,
    ensures
        received(w, message, now_ns, order) == (Served { worker: w, order: Order::Refuse }),
        answered(w, event) == (Served { worker: w, order: Order::Refuse }),
{
}

/// A price update that fails does not stop the service: the worker is idle again,
/// and has published what the update had changed until then.
pub proof fn failed_update_keeps_the_service(w: WorkerState)
    requires
        w.wf(),
        w.work is Updating,
    ensures
        answered(w, Event::Failed).order == (Order::UpdateDone { failed: true }),
        answered(w, Event::Failed).worker.work is Idle,
        answered(w, Event::Failed).worker.tracker == w.tracker,
        answered(w, Event::Failed).worker.published == counters(w.tracker),
{
}

/// Asking for the statistics or for the session changes nothing, and the statistics
/// that an idle worker sends are those that it has published.
pub proof fn asking_changes_nothing(w: WorkerState, now_ns: u64, order: Order)
    requires
        w.wf(),
        w.work is Idle,
    ensures
        received(w, Message::GetStats, now_ns, order) == (Served {
            worker: w,
            order: Order::SendStats { stats: w.published },
        }),
        received(w, Message::GetSessionId, now_ns, order).worker == w,
{
}

/// Once the end of the session has begun, no answer but leads on to its next step
/// or stops the worker, and the published statistics stay as they were.
pub proof fn finalizing_leads_to_the_stop(w: WorkerState, event: Event)
    requires
        w.wf(),
        w.work is Finalizing,
    ensures
        answered(w, event).worker.work is Finalizing || answered(w, event).worker.work is Stopped,
        answered(w, event).worker.published == w.published,
        !(event is Stored) ==> answered(w, event).order == (Order::Stop { failed: true }),
{
}

/// Whether these are the statistics of a tracker: how many opportunities were detected,
/// how many were confirmed, how many slipped, and how many samples were taken.
pub open spec fn tells_of(stats: (u64, u64, u64, u64), t: TrackerState) -> bool {
    &&& stats.0 == t.total_detected
    &&& stats.1 == t.total_confirmed
    &&& stats.2 == t.total_slipped
    &&& stats.3 == t.snapshot_count
}

/// Who asks for the statistics gets them in the order detected, confirmed, slipped,
/// sampled; and so they are published wherever the worker is idle.
pub proof fn statistics_are_those_of_the_tracker(w: WorkerState, now_ns: u64, order: Order)
    requires
        w.wf(),
        w.work is Idle,
    ensures
        tells_of(w.published, w.tracker),
        received(w, Message::GetStats, now_ns, order).order matches Order::SendStats { stats }
            && tells_of(stats, w.tracker),
{
}

/// An update ends with the statistics of the tracker published, as it then is, and the
/// worker idle; until then what was published stays. It is told to have failed exactly
/// where the tracker gave it up.
pub proof fn updates_publish_when_they_end(w: WorkerState, step: Step)
    ensures
        ({
            let served = after_update_step(w, step);
            &&& served.worker.tracker == step.tracker
            &&& served.order matches Order::UpdateDone { failed } ==> {
                &&& served.worker.work is Idle
                &&& tells_of(served.worker.published, step.tracker)
                &&& failed == (step.action is Aborted)
            }
            &&& served.order is UpdateDone <==> step.action is Finished || step.action is Aborted
            &&& served.order is Break <==> step.action is OutOfRange
            &&& served.order is Break <==> served.worker.work is Broken
            &&& served.order matches Order::Perform { action } ==> {
                &&& action == step.action
                &&& served.worker.work == (WorkState::Updating { run: step.run })
                &&& served.worker.published == w.published
            }
            &&& served.order is UpdateDone || served.order is Break || served.order is Perform
        }),
{
}

/// Ending the session leads from action to action, and stops the worker when the tracker
/// is through with it or gives it up, which is told. What was published stays.
pub proof fn the_end_stops_the_worker(
    w: WorkerState,
    tracker: TrackerState,
    run: FinalRunState,
    action: Action,
)
    ensures
        ({
            let served = after_final_step(w, tracker, run, action);
            &&& served.worker.tracker == tracker
            &&& served.worker.published == w.published
            &&& served.order matches Order::Stop { failed } ==> {
                &&& served.worker.work is Stopped
                &&& failed == (action is Aborted)
            }
            &&& served.order is Stop <==> action is Finished || action is Aborted
            &&& served.order matches Order::Perform { action: next } ==> {
                &&& next == action
                &&& served.worker.work == (WorkState::Finalizing { ending: run })
            }
            &&& served.order is Stop || served.order is Perform
        }),
{
}

/// An idle worker turns a price update into an update of its tracker, and the end of the
/// session into closing it from the first record on, each at the moment of the message. A
/// worker at work, stopped or broken refuses, and stays as it is.
pub proof fn messages_reach_the_tracker(
    w: WorkerState,
    snapshot: MarketSnapshot,
    has_all_prices: bool,
    description: String,
    now_ns: u64,
    order: Order,
    message: Message,
)
    ensures
        w.work is Idle ==> received(
            w,
            Message::ProcessUpdate { snapshot, has_all_prices, description },
            now_ns,
            order,
        ).worker.tracker == begin(w.tracker, snapshot, has_all_prices, description, now_ns).tracker,
        w.work is Idle ==> !(received(w, Message::Finalize, now_ns, order).worker.work is Idle),
        w.work is Idle ==> (received(w, Message::Finalize, now_ns, order).worker.work matches
            WorkState::Finalizing { ending } ==> ending.now_ns == now_ns),
        !(w.work is Idle) ==> received(w, message, now_ns, order).order is Refuse
            && received(w, message, now_ns, order).worker == w,
{
}

} // verus!
