//! The tracker: which opportunities are active, when a market is sampled, which
//! opportunities a price update confirms, and which have slipped.
//!
//! The tracker does no input or output. It is driven step by step: each step hands
//! out an [`Action`], and the next one takes the [`Event`] that came of it. A price
//! update is an [`UpdateRun`], the end of a session a [`FinalizeRun`].

use crate::opportunity::{FillStep, OpportunityState, TrackedOpportunity};
use crate::signal::{any_reports, reported, ArbCosts, MarketSnapshot, OpportunityKey, StrategySignal};
use std::collections::HashMap;
use vstd::prelude::*;
use vstd::string::*;

verus! {

broadcast use vstd::std_specs::hash::group_hash_axioms;

/// One second: the least time between two samples of one market.
pub const SNAPSHOT_INTERVAL_NS: u64 = 1_000_000_000;

/// What the driver is to do next.
#[derive(Debug)]
pub enum Action {
    /// Store this sample of a market.
    SaveSnapshot { snapshot: MarketSnapshot },
    /// Evaluate every strategy on this snapshot.
    Evaluate { snapshot: MarketSnapshot },
    /// Compute the fill probability that this step makes of the given one.
    Reestimate { fill_prob_bits: u64, step: FillStep },
    /// Store this opportunity as a new record.
    InsertOpportunity { opp: TrackedOpportunity },
    /// Store this opportunity over its record.
    UpdateOpportunity { opp: TrackedOpportunity },
    /// Store the end of the session with these totals.
    EndSession { markets_tracked: u32, opportunities: u32 },
    /// Nothing: the run is complete.
    Finished,
    /// Nothing: the run ended early, after a failure.
    Aborted,
    /// Nothing: the run ended early, because a count, a difference of prices or
    /// the time since the last sample does not fit its type. This step changed
    /// nothing.
    OutOfRange,
}

/// What came of an action.
#[derive(Debug)]
pub enum Event {
    /// What was to be stored is stored.
    Stored,
    /// The opportunity is stored as the record with this number.
    Inserted { id: i64 },
    /// The strategies report these signals, and the kinds of arbitrage cost this.
    Evaluated { signals: Vec<StrategySignal>, costs: ArbCosts },
    /// The fill probability is now this.
    Reestimated { fill_prob_bits: u64 },
    /// The action failed.
    Failed,
}

/// What a price update is waiting for.
pub enum Stage {
    /// The sample is being stored.
    Sampling,
    /// The strategies are being evaluated.
    Evaluating,
    /// The opportunity in `slot` was confirmed and is being estimated anew.
    Confirming { slot: u64 },
    /// A new opportunity is being stored.
    Inserting { opp: TrackedOpportunity },
    /// The opportunity in `slot` slipped and is being estimated anew.
    Slipping { slot: u64 },
    /// The slipped opportunity in `slot` is being stored.
    Storing { slot: u64 },
    /// Nothing.
    Ended,
}

/// What the end of a session is waiting for.
pub enum FinalStage {
    /// The opportunity in `slot` was closed and is being stored.
    Closing { slot: u64 },
    /// The totals are being stored.
    Totalling,
    /// Nothing.
    Ended,
}

/// The contents of a tracker.
pub struct TrackerState {
    pub session_id: Seq<char>,
    pub active: Seq<TrackedOpportunity>,
    pub total_detected: u64,
    pub total_confirmed: u64,
    pub total_slipped: u64,
    pub snapshot_count: u64,
    pub last_snapshot_ns: Map<u16, u64>,
}

/// The contents of a price update in progress.
pub struct RunState {
    pub snapshot: MarketSnapshot,
    pub description: String,
    pub signals: Seq<StrategySignal>,
    pub costs: ArbCosts,
    pub next_signal: int,
    pub new_signals: Seq<StrategySignal>,
    pub stage: Stage,
}

/// The contents of the end of a session in progress.
pub struct FinalRunState {
    pub now_ns: u64,
    pub stage: FinalStage,
}

/// The first slot at or after `from` that holds the opportunity `key`; the number
/// of slots where there is none.
pub open spec fn slot_of(active: Seq<TrackedOpportunity>, key: OpportunityKey, from: int) -> int
    decreases active.len() - from,
{
    if from >= active.len() {
        active.len() as int
    } else if active[from].key() == key {
        from
    } else {
        slot_of(active, key, from + 1)
    }
}

/// Whether an update of `market_id` that brought `signals` finds this opportunity
/// gone: it is in that market, had not slipped yet, and no signal reports it.
pub open spec fn gone(
    opp: TrackedOpportunity,
    market_id: u16,
    signals: Seq<StrategySignal>,
) -> bool {
    &&& opp.market_id == market_id
    &&& !(opp.state is Slipped)
    &&& !reported(signals, opp.key())
}

/// The first slot at or after `from` whose opportunity is gone; the number of
/// slots where there is none.
pub open spec fn gone_slot(
    active: Seq<TrackedOpportunity>,
    market_id: u16,
    signals: Seq<StrategySignal>,
    from: int,
) -> int
    decreases active.len() - from,
{
    if from >= active.len() {
        active.len() as int
    } else if gone(active[from], market_id, signals) {
        from
    } else {
        gone_slot(active, market_id, signals, from + 1)
    }
}

/// The first slot at or after `from` whose opportunity has not slipped; the number
/// of slots where there is none.
pub open spec fn open_slot(active: Seq<TrackedOpportunity>, from: int) -> int
    decreases active.len() - from,
{
    if from >= active.len() {
        active.len() as int
    } else if !(active[from].state is Slipped) {
        from
    } else {
        open_slot(active, from + 1)
    }
}

/// How many opportunities were seen in a second update.
pub open spec fn seen_twice(active: Seq<TrackedOpportunity>) -> nat
    decreases active.len(),
{
    if active.len() == 0 {
        0
    } else {
        seen_twice(active.drop_last()) + if active.last().ticks_valid >= 2 {
            1nat
        } else {
            0nat
        }
    }
}

/// Whether no two slots hold the same opportunity.
pub open spec fn keys_differ(active: Seq<TrackedOpportunity>) -> bool {
    forall|i: int, j: int|
        0 <= i < j < active.len() ==> (#[trigger] active[i]).key() != (#[trigger] active[j]).key()
}

impl TrackerState {
    /// What holds of a tracker at all times: no opportunity is tracked twice, the
    /// counters agree with the opportunities, and each record is consistent.
    pub open spec fn wf(self) -> bool {
        &&& keys_differ(self.active)
        &&& self.total_detected == self.active.len()
        &&& self.total_confirmed == seen_twice(self.active)
        &&& forall|i: int| 0 <= i < self.active.len() ==> (#[trigger] self.active[i]).consistent()
    }

    /// Whether a market is due to be sampled at `now_ns`.
    pub open spec fn sample_due(self, market_id: u16, now_ns: u64) -> bool {
        !self.last_snapshot_ns.contains_key(market_id) || now_ns - self.last_snapshot_ns[market_id]
            > SNAPSHOT_INTERVAL_NS
    }
}

/// The signal's opportunity, as it is first seen by the tracker at `now_ns`.
pub open spec fn new_opportunity(
    signal: StrategySignal,
    description: String,
    now_ns: u64,
) -> TrackedOpportunity {
    TrackedOpportunity {
        detected_at_ns: now_ns,
        last_seen_ns: now_ns,
        ..TrackedOpportunity::detected(signal, description)
    }
}

impl RunState {
    /// This run, waiting for something else.
    pub open spec fn at(self, stage: Stage) -> RunState {
        RunState { stage, ..self }
    }

    /// Whether every signal before `n` has its opportunity in the tracker, and that
    /// opportunity has not slipped.
    pub open spec fn taken(self, t: TrackerState, n: int) -> bool {
        forall|i: int|
            0 <= i < n ==> exists|j: int|
                0 <= j < t.active.len() && (#[trigger] t.active[j]).key() == (
                #[trigger] self.signals[i]).key() && !(t.active[j].state is Slipped)
    }

    /// Whether every opportunity before slot `n` that is in this run's market and
    /// is not reported has slipped.
    pub open spec fn swept(self, t: TrackerState, n: int) -> bool {
        forall|j: int|
            0 <= j < n ==> !gone(#[trigger] t.active[j], self.snapshot.market_id, self.signals)
    }

    /// Whether the last slots hold, in order, the opportunities of the signals that
    /// this run found to be new.
    pub open spec fn appended(self, t: TrackerState) -> bool {
        &&& self.new_signals.len() <= t.active.len()
        &&& forall|i: int|
            0 <= i < self.new_signals.len() ==> (#[trigger] self.new_signals[i]).key()
                == t.active[t.active.len() - self.new_signals.len() + i].key()
    }

    /// What holds between a run and its tracker at each stage.
    pub open spec fn valid(self, t: TrackerState) -> bool {
        &&& t.wf()
        &&& self.appended(t)
        &&& match self.stage {
            Stage::Sampling => true,
            Stage::Evaluating => true,
            Stage::Confirming { slot } => {
                &&& 0 <= self.next_signal < self.signals.len()
                &&& slot < t.active.len()
                &&& t.active[slot as int].key() == self.signals[self.next_signal].key()
                &&& !(t.active[slot as int].state is Slipped)
                &&& self.taken(t, self.next_signal)
            },
            Stage::Inserting { opp } => {
                &&& 0 <= self.next_signal < self.signals.len()
                &&& opp == new_opportunity(
                    self.signals[self.next_signal],
                    self.description,
                    self.snapshot.timestamp_ns,
                )
                &&& slot_of(t.active, opp.key(), 0) == t.active.len()
                &&& self.taken(t, self.next_signal)
            },
            Stage::Slipping { slot } => {
                &&& slot < t.active.len()
                &&& t.active[slot as int].market_id == self.snapshot.market_id
                &&& self.taken(t, self.signals.len() as int)
                &&& self.swept(t, slot + 1)
            },
            Stage::Storing { slot } => {
                &&& slot < t.active.len()
                &&& t.active[slot as int].market_id == self.snapshot.market_id
                &&& self.taken(t, self.signals.len() as int)
                &&& self.swept(t, slot + 1)
            },
            Stage::Ended => true,
        }
    }

    /// Whether the opportunities of this run's market stand as its signals say:
    /// those that no signal reports have slipped, and the others have not.
    pub open spec fn settled(self, t: TrackerState) -> bool {
        forall|j: int|
            0 <= j < t.active.len() && (#[trigger] t.active[j]).market_id
                == self.snapshot.market_id ==> (t.active[j].state is Slipped <==> !reported(
                self.signals,
                t.active[j].key(),
            ))
    }
}

/// One step of a price update: the tracker, the run and the action after it.
pub struct Step {
    pub tracker: TrackerState,
    pub run: RunState,
    pub action: Action,
}

/// A step that ends the run and changes nothing in the tracker.
pub open spec fn stop(t: TrackerState, r: RunState, action: Action) -> Step {
    Step { tracker: t, run: r.at(Stage::Ended), action }
}

/// Looks at slots from `from` on for an opportunity that is gone, and slips it.
pub open spec fn sweep(t: TrackerState, r: RunState, from: int) -> Step {
    let slot = gone_slot(t.active, r.snapshot.market_id, r.signals, from);
    if slot < t.active.len() {
        let opp = t.active[slot];
        let cost = Some(r.costs.cost(opp.arb_type));
        if opp.slip_fits(cost) {
            Step {
                tracker: TrackerState {
                    active: t.active.update(slot, opp.slipped(cost, r.snapshot.timestamp_ns)),
                    ..t
                },
                run: r.at(Stage::Slipping { slot: slot as u64 }),
                action: Action::Reestimate {
                    fill_prob_bits: opp.estimated_fill_prob_bits,
                    step: opp.slip_step(),
                },
            }
        } else {
            stop(t, r, Action::OutOfRange)
        }
    } else {
        stop(t, r, Action::Finished)
    }
}

/// Takes the next signal: confirms its opportunity where it is tracked, and else
/// has it stored. After the last signal the sweep begins.
pub open spec fn advance(t: TrackerState, r: RunState) -> Step {
    if r.next_signal < r.signals.len() {
        let signal = r.signals[r.next_signal];
        let slot = slot_of(t.active, signal.key(), 0);
        let now_ns = r.snapshot.timestamp_ns;
        if slot < t.active.len() {
            let opp = t.active[slot];
            let confirmed = opp.confirmed(Some(signal.cost_cents), now_ns);
            if opp.ticks_valid < u32::MAX {
                Step {
                    tracker: TrackerState {
                        active: t.active.update(slot, confirmed),
                        total_confirmed: if confirmed.ticks_valid == 2 {
                            (t.total_confirmed + 1) as u64
                        } else {
                            t.total_confirmed
                        },
                        ..t
                    },
                    run: r.at(Stage::Confirming { slot: slot as u64 }),
                    action: Action::Reestimate {
                        fill_prob_bits: opp.estimated_fill_prob_bits,
                        step: FillStep::Grow { duration_ns: confirmed.duration_ns },
                    },
                }
            } else {
                stop(t, r, Action::OutOfRange)
            }
        } else {
            let opp = new_opportunity(signal, r.description, now_ns);
            Step {
                tracker: t,
                run: r.at(Stage::Inserting { opp }),
                action: Action::InsertOpportunity { opp },
            }
        }
    } else {
        sweep(t, r, 0)
    }
}

/// The tracker with another fill probability in one slot.
pub open spec fn reestimated(t: TrackerState, slot: int, fill_prob_bits: u64) -> TrackerState {
    TrackerState {
        active: t.active.update(
            slot,
            TrackedOpportunity { estimated_fill_prob_bits: fill_prob_bits, ..t.active[slot] },
        ),
        ..t
    }
}

/// The costs of a run before its strategies were evaluated.
pub open spec fn no_costs() -> ArbCosts {
    ArbCosts { poly_yes_kalshi_no: 0, kalshi_yes_poly_no: 0, poly_only: 0, kalshi_only: 0 }
}

/// The first step of a price update.
pub open spec fn begin(
    t: TrackerState,
    snapshot: MarketSnapshot,
    has_all_prices: bool,
    description: String,
    now_ns: u64,
) -> Step {
    let stamped = MarketSnapshot { timestamp_ns: now_ns, ..snapshot };
    let r = RunState {
        snapshot: stamped,
        description,
        signals: Seq::empty(),
        costs: no_costs(),
        next_signal: 0,
        new_signals: Seq::empty(),
        stage: Stage::Evaluating,
    };
    let market_id = snapshot.market_id;
    if t.last_snapshot_ns.contains_key(market_id) && now_ns < t.last_snapshot_ns[market_id] {
        stop(t, r, Action::OutOfRange)
    } else if has_all_prices && t.sample_due(market_id, now_ns) {
        Step {
            tracker: t,
            run: r.at(Stage::Sampling),
            action: Action::SaveSnapshot { snapshot: stamped },
        }
    } else {
        Step { tracker: t, run: r, action: Action::Evaluate { snapshot: stamped } }
    }
}

/// The step that an event brings about.
pub open spec fn resumed(t: TrackerState, r: RunState, event: Event) -> Step {
    match (r.stage, event) {
        (Stage::Sampling, Event::Stored) => if t.snapshot_count < u64::MAX {
            Step {
                tracker: TrackerState {
                    last_snapshot_ns: t.last_snapshot_ns.insert(
                        r.snapshot.market_id,
                        r.snapshot.timestamp_ns,
                    ),
                    snapshot_count: (t.snapshot_count + 1) as u64,
                    ..t
                },
                run: r.at(Stage::Evaluating),
                action: Action::Evaluate { snapshot: r.snapshot },
            }
        } else {
            stop(t, r, Action::OutOfRange)
        },
        (Stage::Evaluating, Event::Evaluated { signals, costs }) => advance(
            t,
            RunState { signals: signals@, costs, next_signal: 0, ..r },
        ),
        (Stage::Confirming { slot }, Event::Reestimated { fill_prob_bits }) => advance(
            reestimated(t, slot as int, fill_prob_bits),
            RunState { next_signal: r.next_signal + 1, ..r },
        ),
        (Stage::Inserting { opp }, Event::Inserted { id }) => if t.total_detected < u64::MAX {
            advance(
                TrackerState {
                    active: t.active.push(TrackedOpportunity { id, ..opp }),
                    total_detected: (t.total_detected + 1) as u64,
                    ..t
                },
                RunState {
                    next_signal: r.next_signal + 1,
                    new_signals: r.new_signals.push(r.signals[r.next_signal]),
                    ..r
                },
            )
        } else {
            stop(t, r, Action::OutOfRange)
        },
        (Stage::Slipping { slot }, Event::Reestimated { fill_prob_bits }) => {
            let after = reestimated(t, slot as int, fill_prob_bits);
            Step {
                tracker: after,
                run: r.at(Stage::Storing { slot }),
                action: Action::UpdateOpportunity { opp: after.active[slot as int] },
            }
        },
        (Stage::Storing { slot }, Event::Stored) => if t.total_slipped < u64::MAX {
            sweep(
                TrackerState { total_slipped: (t.total_slipped + 1) as u64, ..t },
                r,
                slot + 1,
            )
        } else {
            stop(t, r, Action::OutOfRange)
        },
        _ => stop(t, r, Action::Aborted),
    }
}

/// One step of the end of a session.
pub struct FinalStep {
    pub tracker: TrackerState,
    pub run: FinalRunState,
    pub action: Action,
}

impl FinalRunState {
    /// Whether every opportunity before slot `n` has slipped or is closed.
    pub open spec fn closed_before(self, t: TrackerState, n: int) -> bool {
        forall|j: int|
            0 <= j < n ==> (#[trigger] t.active[j]).state is Slipped
                || t.active[j].state is ClosedProfitable
    }

    /// What holds between the end of a session and its tracker at each stage.
    pub open spec fn valid(self, t: TrackerState) -> bool {
        &&& t.wf()
        &&& match self.stage {
            FinalStage::Closing { slot } => slot < t.active.len() && self.closed_before(
                t,
                slot + 1,
            ),
            FinalStage::Totalling => self.closed_before(t, t.active.len() as int),
            FinalStage::Ended => true,
        }
    }
}

/// Looks at slots from `from` on for an opportunity that has not slipped, and
/// closes it. Where there is none, the totals of the session are stored: how many
/// markets were sampled, and how many opportunities were detected, in 32 bits.
pub open spec fn close_next(t: TrackerState, r: FinalRunState, from: int) -> FinalStep {
    let slot = open_slot(t.active, from);
    if slot < t.active.len() {
        let closed = t.active[slot].closed(r.now_ns);
        FinalStep {
            tracker: TrackerState { active: t.active.update(slot, closed), ..t },
            run: FinalRunState { stage: FinalStage::Closing { slot: slot as u64 }, ..r },
            action: Action::UpdateOpportunity { opp: closed },
        }
    } else {
        FinalStep {
            tracker: t,
            run: FinalRunState { stage: FinalStage::Totalling, ..r },
            action: Action::EndSession {
                markets_tracked: t.last_snapshot_ns.len() as u32,
                opportunities: (t.total_detected % 0x1_0000_0000) as u32,
            },
        }
    }
}

/// The step of the end of a session that an event brings about.
pub open spec fn final_resumed(t: TrackerState, r: FinalRunState, event: Event) -> FinalStep {
    let ended = FinalRunState { stage: FinalStage::Ended, ..r };
    match (r.stage, event) {
        (FinalStage::Closing { slot }, Event::Stored) => close_next(t, r, slot + 1),
        (FinalStage::Totalling, Event::Stored) => FinalStep {
            tracker: t,
            run: ended,
            action: Action::Finished,
        },
        _ => FinalStep { tracker: t, run: ended, action: Action::Aborted },
    }
}

/// Where a key is found, and where it is not.
pub proof fn lemma_slot_of(active: Seq<TrackedOpportunity>, key: OpportunityKey, from: int)
    requires
        0 <= from <= active.len(),
    ensures
        from <= slot_of(active, key, from) <= active.len(),
        slot_of(active, key, from) < active.len() ==> active[slot_of(active, key, from)].key()
            == key,
        forall|i: int|
            from <= i < slot_of(active, key, from) ==> (#[trigger] active[i]).key() != key,
    decreases active.len() - from,
{
    if from < active.len() && active[from].key() != key {
        lemma_slot_of(active, key, from + 1);
    }
}

/// The first opportunity that is gone, and that none before it is.
pub proof fn lemma_gone_slot(
    active: Seq<TrackedOpportunity>,
    market_id: u16,
    signals: Seq<StrategySignal>,
    from: int,
)
    requires
        0 <= from <= active.len(),
    ensures
        from <= gone_slot(active, market_id, signals, from) <= active.len(),
        gone_slot(active, market_id, signals, from) < active.len() ==> gone(
            active[gone_slot(active, market_id, signals, from)],
            market_id,
            signals,
        ),
        forall|i: int|
            from <= i < gone_slot(active, market_id, signals, from) ==> !gone(
                #[trigger] active[i],
                market_id,
                signals,
            ),
    decreases active.len() - from,
{
    if from < active.len() && !gone(active[from], market_id, signals) {
        lemma_gone_slot(active, market_id, signals, from + 1);
    }
}

/// The first opportunity that has not slipped, and that all before it have.
pub proof fn lemma_open_slot(active: Seq<TrackedOpportunity>, from: int)
    requires
        0 <= from <= active.len(),
    ensures
        from <= open_slot(active, from) <= active.len(),
        open_slot(active, from) < active.len() ==> !(active[open_slot(
            active,
            from,
        )].state is Slipped),
        forall|i: int|
            from <= i < open_slot(active, from) ==> (#[trigger] active[i]).state is Slipped,
    decreases active.len() - from,
{
    if from < active.len() && active[from].state is Slipped {
        lemma_open_slot(active, from + 1);
    }
}

/// What replacing one opportunity does to the number of those seen twice.
proof fn lemma_seen_twice_update(
    active: Seq<TrackedOpportunity>,
    slot: int,
    opp: TrackedOpportunity,
)
    requires
        0 <= slot < active.len(),
    ensures
        seen_twice(active.update(slot, opp)) == seen_twice(active) - (if active[slot].ticks_valid
            >= 2 {
            1int
        } else {
            0int
        }) + (if opp.ticks_valid >= 2 {
            1int
        } else {
            0int
        }),
    decreases active.len(),
{
    let after = active.update(slot, opp);
    if slot == active.len() - 1 {
        assert(after.drop_last() =~= active.drop_last());
    } else {
        assert(after.drop_last() =~= active.drop_last().update(slot, opp));
        lemma_seen_twice_update(active.drop_last(), slot, opp);
    }
}

/// No more opportunities were seen twice than there are.
proof fn lemma_seen_twice_bound(active: Seq<TrackedOpportunity>)
    ensures
        seen_twice(active) <= active.len(),
    decreases active.len(),
{
    if active.len() > 0 {
        lemma_seen_twice_bound(active.drop_last());
    }
}

/// Replacing an opportunity by a consistent record of the same opportunity, seen
/// the same number of times, keeps a tracker well-formed.
proof fn lemma_replace_keeps_wf(t: TrackerState, slot: int, opp: TrackedOpportunity)
    requires
        t.wf(),
        0 <= slot < t.active.len(),
        opp.key() == t.active[slot].key(),
        opp.consistent(),
        opp.ticks_valid == t.active[slot].ticks_valid,
    ensures
        (TrackerState { active: t.active.update(slot, opp), ..t }).wf(),
{
    lemma_seen_twice_update(t.active, slot, opp);
}

/// Signals that were taken stay so when an opportunity is replaced by one of the
/// same key that has not slipped, or by one that no signal reports.
proof fn lemma_replace_keeps_taken(
    t: TrackerState,
    r: RunState,
    n: int,
    slot: int,
    opp: TrackedOpportunity,
)
    requires
        r.taken(t, n),
        0 <= n <= r.signals.len(),
        0 <= slot < t.active.len(),
        opp.key() == t.active[slot].key(),
        !(opp.state is Slipped) || !reported(r.signals, opp.key()),
    ensures
        r.taken(TrackerState { active: t.active.update(slot, opp), ..t }, n),
{
    let after = TrackerState { active: t.active.update(slot, opp), ..t };
    assert forall|i: int| 0 <= i < n implies exists|j: int|
        0 <= j < after.active.len() && (#[trigger] after.active[j]).key() == (
        #[trigger] r.signals[i]).key() && !(after.active[j].state is Slipped) by {
        let j = choose|j: int|
            0 <= j < t.active.len() && (#[trigger] t.active[j]).key() == r.signals[i].key() && !(
            t.active[j].state is Slipped);
        assert(after.active[j].key() == r.signals[i].key());
        if j == slot {
            assert(reported(r.signals, opp.key()));
        }
    }
}

/// The sweep keeps run and tracker valid, and ends with the market settled.
proof fn lemma_sweep(t: TrackerState, r: RunState, from: int)
    requires
        t.wf(),
        0 <= from <= t.active.len(),
        r.appended(t),
        r.taken(t, r.signals.len() as int),
        r.swept(t, from),
    ensures
        sweep(t, r, from).run.valid(sweep(t, r, from).tracker),
        sweep(t, r, from).action is Finished ==> sweep(t, r, from).run.settled(
            sweep(t, r, from).tracker,
        ),
{
    let market_id = r.snapshot.market_id;
    lemma_gone_slot(t.active, market_id, r.signals, from);
    let slot = gone_slot(t.active, market_id, r.signals, from);
    if slot < t.active.len() {
        let opp = t.active[slot];
        let cost = Some(r.costs.cost(opp.arb_type));
        if opp.slip_fits(cost) {
            let slipped = opp.slipped(cost, r.snapshot.timestamp_ns);
            lemma_replace_keeps_wf(t, slot, slipped);
            lemma_replace_keeps_taken(t, r, r.signals.len() as int, slot, slipped);
            let after = sweep(t, r, from);
            assert forall|j: int| 0 <= j < slot + 1 implies !gone(
                #[trigger] after.tracker.active[j],
                market_id,
                r.signals,
            ) by {
                if j < slot {
                    assert(after.tracker.active[j] == t.active[j]);
                }
            }
        }
    } else {
        assert forall|j: int|
            0 <= j < t.active.len() && (#[trigger] t.active[j]).market_id
                == market_id implies (t.active[j].state is Slipped <==> !reported(
            r.signals,
            t.active[j].key(),
        )) by {
            assert(!gone(t.active[j], market_id, r.signals));
            if reported(r.signals, t.active[j].key()) {
                let i = choose|i: int|
                    0 <= i < r.signals.len() && (#[trigger] r.signals[i]).key()
                        == t.active[j].key();
                let k = choose|k: int|
                    0 <= k < t.active.len() && (#[trigger] t.active[k]).key()
                        == r.signals[i].key() && !(t.active[k].state is Slipped);
                assert(t.active[k].key() == t.active[j].key());
                assert(k == j);
            }
        }
    }
}

/// Taking the next signal keeps run and tracker valid.
proof fn lemma_advance(t: TrackerState, r: RunState)
    requires
        t.wf(),
        r.appended(t),
        0 <= r.next_signal <= r.signals.len(),
        r.taken(t, r.next_signal),
    ensures
        advance(t, r).run.valid(advance(t, r).tracker),
        advance(t, r).action is Finished ==> advance(t, r).run.settled(advance(t, r).tracker),
{
    if r.next_signal < r.signals.len() {
        let signal = r.signals[r.next_signal];
        let slot = slot_of(t.active, signal.key(), 0);
        lemma_slot_of(t.active, signal.key(), 0);
        if slot < t.active.len() {
            let opp = t.active[slot];
            let confirmed = opp.confirmed(Some(signal.cost_cents), r.snapshot.timestamp_ns);
            if opp.ticks_valid < u32::MAX {
                let after = advance(t, r);
                lemma_seen_twice_update(t.active, slot, confirmed);
                lemma_seen_twice_bound(t.active.update(slot, confirmed));
                assert(confirmed.consistent());
                assert(after.tracker.wf());
                lemma_replace_keeps_taken(t, r, r.next_signal, slot, confirmed);
                assert(after.run.taken(after.tracker, r.next_signal)) by {
                    let plain = TrackerState { active: t.active.update(slot, confirmed), ..t };
                    assert(r.taken(plain, r.next_signal));
                    assert(after.tracker.active == plain.active);
                }
            }
        }
    } else {
        lemma_sweep(t, r, 0);
    }
}

/// Another fill probability keeps a tracker well-formed, and changes no key and no
/// state.
proof fn lemma_reestimated(t: TrackerState, slot: int, fill_prob_bits: u64)
    requires
        t.wf(),
        0 <= slot < t.active.len(),
    ensures
        reestimated(t, slot, fill_prob_bits).wf(),
        forall|j: int|
            0 <= j < t.active.len() ==> (#[trigger] reestimated(
                t,
                slot,
                fill_prob_bits,
            ).active[j]).key() == t.active[j].key(),
        forall|j: int|
            0 <= j < t.active.len() ==> (#[trigger] reestimated(
                t,
                slot,
                fill_prob_bits,
            ).active[j]).state == t.active[j].state,
{
    lemma_replace_keeps_wf(
        t,
        slot,
        TrackedOpportunity { estimated_fill_prob_bits: fill_prob_bits, ..t.active[slot] },
    );
}

/// Each step of a price update keeps tracker and run valid. When the update is
/// finished, the opportunities of its market that no signal reports have slipped,
/// and the others have not.
#[verifier::spinoff_prover]
#[verifier::rlimit(60)]
pub proof fn update_settles_its_market(t: TrackerState, r: RunState, event: Event)
    requires
        r.valid(t),
    ensures
        resumed(t, r, event).run.valid(resumed(t, r, event).tracker),
        resumed(t, r, event).action is Finished ==> resumed(t, r, event).run.settled(
            resumed(t, r, event).tracker,
        ),
{
    match (r.stage, event) {
        (Stage::Evaluating, Event::Evaluated { signals, costs }) => {
            lemma_advance(t, RunState { signals: signals@, costs, next_signal: 0, ..r });
        },
        (Stage::Confirming { slot }, Event::Reestimated { fill_prob_bits }) => {
            let after = reestimated(t, slot as int, fill_prob_bits);
            let next = RunState { next_signal: r.next_signal + 1, ..r };
            lemma_reestimated(t, slot as int, fill_prob_bits);
            lemma_replace_keeps_taken(t, r, r.next_signal, slot as int, after.active[slot as int]);
            assert(next.taken(after, next.next_signal)) by {
                assert(r.taken(after, r.next_signal));
                assert(after.active[slot as int].key() == r.signals[r.next_signal].key());
            }
            lemma_advance(after, next);
        },
        (Stage::Inserting { opp }, Event::Inserted { id }) => {
            if t.total_detected < u64::MAX {
                let stored = TrackedOpportunity { id, ..opp };
                let after = TrackerState {
                    active: t.active.push(stored),
                    total_detected: (t.total_detected + 1) as u64,
                    ..t
                };
                let next = RunState {
                    next_signal: r.next_signal + 1,
                    new_signals: r.new_signals.push(r.signals[r.next_signal]),
                    ..r
                };
                lemma_slot_of(t.active, opp.key(), 0);
                assert(after.active.drop_last() =~= t.active);
                assert(after.wf());
                assert forall|i: int| 0 <= i < next.next_signal implies exists|j: int|
                    0 <= j < after.active.len() && (#[trigger] after.active[j]).key() == (
                    #[trigger] next.signals[i]).key() && !(after.active[j].state is Slipped) by {
                    if i == r.next_signal {
                        assert(after.active[t.active.len() as int].key() == next.signals[i].key());
                    } else {
                        let j = choose|j: int|
                            0 <= j < t.active.len() && (#[trigger] t.active[j]).key()
                                == r.signals[i].key() && !(t.active[j].state is Slipped);
                        assert(after.active[j] == t.active[j]);
                    }
                }
                lemma_advance(after, next);
            }
        },
        (Stage::Slipping { slot }, Event::Reestimated { fill_prob_bits }) => {
            let after = reestimated(t, slot as int, fill_prob_bits);
            lemma_reestimated(t, slot as int, fill_prob_bits);
            assert(!gone(t.active[slot as int], r.snapshot.market_id, r.signals));
            assert(r.taken(after, r.signals.len() as int)) by {
                assert forall|i: int| 0 <= i < r.signals.len() implies exists|j: int|
                    0 <= j < after.active.len() && (#[trigger] after.active[j]).key() == (
                    #[trigger] r.signals[i]).key() && !(after.active[j].state is Slipped) by {
                    let j = choose|j: int|
                        0 <= j < t.active.len() && (#[trigger] t.active[j]).key()
                            == r.signals[i].key() && !(t.active[j].state is Slipped);
                    assert(after.active[j].key() == t.active[j].key());
                }
            }
            assert forall|j: int| 0 <= j < slot + 1 implies !gone(
                #[trigger] after.active[j],
                r.snapshot.market_id,
                r.signals,
            ) by {
                assert(!gone(t.active[j], r.snapshot.market_id, r.signals));
            }
        },
        (Stage::Storing { slot }, Event::Stored) => {
            if t.total_slipped < u64::MAX {
                let after = TrackerState { total_slipped: (t.total_slipped + 1) as u64, ..t };
                assert(r.taken(after, r.signals.len() as int)) by {
                    assert(after.active == t.active);
                }
                lemma_sweep(after, r, slot + 1);
            }
        },
        _ => {},
    }
}

/// Closing the next opportunity keeps run and tracker valid.
proof fn lemma_close_next(t: TrackerState, r: FinalRunState, from: int)
    requires
        t.wf(),
        0 <= from <= t.active.len(),
        r.closed_before(t, from),
    ensures
        close_next(t, r, from).run.valid(close_next(t, r, from).tracker),
{
    lemma_open_slot(t.active, from);
    let slot = open_slot(t.active, from);
    if slot < t.active.len() {
        let closed = t.active[slot].closed(r.now_ns);
        lemma_replace_keeps_wf(t, slot, closed);
        let after = close_next(t, r, from);
        assert forall|j: int| 0 <= j < slot + 1 implies (
        #[trigger] after.tracker.active[j]).state is Slipped
            || after.tracker.active[j].state is ClosedProfitable by {
            if j < slot {
                assert(after.tracker.active[j] == t.active[j]);
            }
        }
    }
}

/// Each step of the end of a session keeps tracker and run valid. When it is
/// finished, every opportunity has slipped or is closed.
pub proof fn finalizing_closes_everything(t: TrackerState, r: FinalRunState, event: Event)
    requires
        r.valid(t),
    ensures
        final_resumed(t, r, event).run.valid(final_resumed(t, r, event).tracker),
        final_resumed(t, r, event).action is Finished ==> r.closed_before(
            final_resumed(t, r, event).tracker,
            t.active.len() as int,
        ),
{
    match (r.stage, event) {
        (FinalStage::Closing { slot }, Event::Stored) => {
            lemma_close_next(t, r, slot + 1);
        },
        _ => {},
    }
}

/// The end of a session forgets no opportunity, rewrites no detection and lowers
/// no counter.
pub proof fn finalizing_forgets_nothing(t: TrackerState, r: FinalRunState, event: Event)
    requires
        r.valid(t),
    ensures
        remembers(t, final_resumed(t, r, event).tracker),
{
    match (r.stage, event) {
        (FinalStage::Closing { slot }, Event::Stored) => {
            lemma_open_slot(t.active, slot + 1);
        },
        _ => {},
    }
}

/// A tracker samples no more markets than there are market numbers, so their
/// number fits in 32 bits.
pub proof fn sampled_markets_fit(t: TrackerState)
    ensures
        t.last_snapshot_ns.len() <= 0x1_0000,
{
    broadcast use vstd::set_lib::range_set_properties;

    let all = <u16 as vstd::set_lib::FiniteRange>::range_set(0, u16::MAX).insert(u16::MAX);
    assert(all.len() == 0x1_0000);
    assert(t.last_snapshot_ns.dom().subset_of(all));
    vstd::set_lib::lemma_len_subset(t.last_snapshot_ns.dom(), all);
}

/// A market that was sampled is sampled again only when more than the interval has
/// passed.
pub proof fn samples_are_an_interval_apart(
    t: TrackerState,
    snapshot: MarketSnapshot,
    has_all_prices: bool,
    description: String,
    now_ns: u64,
)
    requires
        t.last_snapshot_ns.contains_key(snapshot.market_id),
    ensures
        begin(t, snapshot, has_all_prices, description, now_ns).action is SaveSnapshot ==> now_ns
            > t.last_snapshot_ns[snapshot.market_id] + SNAPSHOT_INTERVAL_NS,
{
}

/// What holds from one state of a tracker to a later one: opportunities stay in
/// their slots with what was written down at their detection, and no counter falls.
pub open spec fn remembers(before: TrackerState, after: TrackerState) -> bool {
    &&& after.session_id == before.session_id
    &&& before.active.len() <= after.active.len()
    &&& forall|j: int|
        0 <= j < before.active.len() ==> (#[trigger] after.active[j]).same_detection(
            before.active[j],
        )
    &&& before.total_detected <= after.total_detected
    &&& before.total_confirmed <= after.total_confirmed
    &&& before.total_slipped <= after.total_slipped
    &&& before.snapshot_count <= after.snapshot_count
}

/// A sweep forgets nothing, and changes only what is gone.
proof fn lemma_sweep_remembers(t: TrackerState, r: RunState, from: int)
    requires
        0 <= from <= t.active.len(),
    ensures
        remembers(t, sweep(t, r, from).tracker),
        forall|j: int|
            0 <= j < t.active.len() && (#[trigger] t.active[j]).market_id != r.snapshot.market_id
                ==> sweep(t, r, from).tracker.active[j] == t.active[j],
{
    lemma_gone_slot(t.active, r.snapshot.market_id, r.signals, from);
}

/// Taking a signal forgets nothing.
proof fn lemma_advance_remembers(t: TrackerState, r: RunState)
    requires
        t.wf(),
        0 <= r.next_signal,
    ensures
        remembers(t, advance(t, r).tracker),
{
    if r.next_signal < r.signals.len() {
        let signal = r.signals[r.next_signal];
        let slot = slot_of(t.active, signal.key(), 0);
        lemma_slot_of(t.active, signal.key(), 0);
        if slot < t.active.len() && t.active[slot].ticks_valid < u32::MAX {
            let confirmed = t.active[slot].confirmed(
                Some(signal.cost_cents),
                r.snapshot.timestamp_ns,
            );
            lemma_seen_twice_update(t.active, slot, confirmed);
            lemma_seen_twice_bound(t.active.update(slot, confirmed));
        }
    } else {
        lemma_sweep_remembers(t, r, 0);
    }
}

/// No step of a price update forgets an opportunity, rewrites a detection or
/// lowers a counter.
pub proof fn update_forgets_nothing(t: TrackerState, r: RunState, event: Event)
    requires
        r.valid(t),
    ensures
        remembers(t, resumed(t, r, event).tracker),
{
    match (r.stage, event) {
        (Stage::Evaluating, Event::Evaluated { signals, costs }) => {
            lemma_advance_remembers(t, RunState { signals: signals@, costs, next_signal: 0, ..r });
        },
        (Stage::Confirming { slot }, Event::Reestimated { fill_prob_bits }) => {
            let after = reestimated(t, slot as int, fill_prob_bits);
            lemma_reestimated(t, slot as int, fill_prob_bits);
            lemma_advance_remembers(after, RunState { next_signal: r.next_signal + 1, ..r });
        },
        (Stage::Inserting { opp }, Event::Inserted { id }) => {
            if t.total_detected < u64::MAX {
                let after = TrackerState {
                    active: t.active.push(TrackedOpportunity { id, ..opp }),
                    total_detected: (t.total_detected + 1) as u64,
                    ..t
                };
                lemma_slot_of(t.active, opp.key(), 0);
                assert(after.active.drop_last() =~= t.active);
                lemma_advance_remembers(
                    after,
                    RunState {
                        next_signal: r.next_signal + 1,
                        new_signals: r.new_signals.push(r.signals[r.next_signal]),
                        ..r
                    },
                );
                let last = resumed(t, r, event).tracker;
                assert forall|j: int| 0 <= j < t.active.len() implies (
                #[trigger] last.active[j]).same_detection(t.active[j]) by {
                    assert(after.active[j] == t.active[j]);
                }
            }
        },
        (Stage::Storing { slot }, Event::Stored) => {
            if t.total_slipped < u64::MAX {
                lemma_sweep_remembers(
                    TrackerState { total_slipped: (t.total_slipped + 1) as u64, ..t },
                    r,
                    slot + 1,
                );
            }
        },
        _ => {},
    }
}

/// The step that a sequence of events leads to, one after the other.
pub open spec fn driven(first: Step, events: Seq<Event>) -> Step
    decreases events.len(),
{
    if events.len() == 0 {
        first
    } else {
        let before = driven(first, events.drop_last());
        resumed(before.tracker, before.run, events.last())
    }
}

/// Whatever comes of the actions, a price update leaves a tracker well-formed and
/// forgets nothing; and where it is finished, its market is settled.
pub proof fn any_update_keeps_the_tracker(first: Step, events: Seq<Event>)
    requires
        first.run.valid(first.tracker),
    ensures
        driven(first, events).tracker.wf(),
        driven(first, events).run.valid(driven(first, events).tracker),
        remembers(first.tracker, driven(first, events).tracker),
        events.len() > 0 && driven(first, events).action is Finished ==> driven(
            first,
            events,
        ).run.settled(driven(first, events).tracker),
    decreases events.len(),
{
    if events.len() > 0 {
        any_update_keeps_the_tracker(first, events.drop_last());
        let before = driven(first, events.drop_last());
        let after = driven(first, events);
        update_settles_its_market(before.tracker, before.run, events.last());
        update_forgets_nothing(before.tracker, before.run, events.last());
        assert forall|j: int| 0 <= j < first.tracker.active.len() implies (
        #[trigger] after.tracker.active[j]).same_detection(first.tracker.active[j]) by {
            assert(before.tracker.active[j].same_detection(first.tracker.active[j]));
        }
    }
}

/// How far a price update has come: the sample first, then the strategies, then the
/// opportunities.
pub open spec fn phase(r: RunState) -> nat {
    match r.stage {
        Stage::Sampling => 2,
        Stage::Evaluating => 1,
        _ => 0,
    }
}

/// A bound on the steps that are left once the strategies were evaluated.
pub open spec fn steps_left(t: TrackerState, r: RunState) -> int {
    match r.stage {
        Stage::Confirming { slot } => 3 * (r.signals.len() - r.next_signal) + 2 * t.active.len(),
        Stage::Inserting { opp } => 3 * (r.signals.len() - r.next_signal) + 2 * t.active.len(),
        Stage::Slipping { slot } => 2 * (t.active.len() - slot),
        Stage::Storing { slot } => 2 * (t.active.len() - slot) - 1,
        _ => 0,
    }
}

/// Every price update comes to an end: whatever is answered, each step ends the
/// run, or brings it to a later phase, or leaves fewer steps in the last one. The
/// run ends with an action that asks for nothing, and with no other.
pub proof fn update_comes_to_an_end(t: TrackerState, r: RunState, event: Event)
    requires
        r.valid(t),
        !(r.stage is Ended),
    ensures
        ({
            let after = resumed(t, r, event);
            &&& after.run.stage is Ended || phase(after.run) < phase(r) || (phase(after.run)
                == phase(r) && 0 < steps_left(after.tracker, after.run) < steps_left(t, r))
            &&& after.run.stage is Ended <==> after.action is Finished || after.action is Aborted
                || after.action is OutOfRange
        }),
{
    update_settles_its_market(t, r, event);
    match (r.stage, event) {
        (Stage::Storing { slot }, Event::Stored) => {
            let next = TrackerState { total_slipped: (t.total_slipped + 1) as u64, ..t };
            lemma_gone_slot(next.active, r.snapshot.market_id, r.signals, slot + 1);
        },
        (Stage::Confirming { slot }, Event::Reestimated { fill_prob_bits }) => {
            let after = reestimated(t, slot as int, fill_prob_bits);
            lemma_gone_slot(after.active, r.snapshot.market_id, r.signals, 0);
        },
        (Stage::Inserting { opp }, Event::Inserted { id }) => {
            let active = t.active.push(TrackedOpportunity { id, ..opp });
            lemma_gone_slot(active, r.snapshot.market_id, r.signals, 0);
        },
        _ => {},
    }
}

/// The end of a session comes to an end: whatever is answered, each step ends it,
/// or closes a later opportunity, or turns to the totals.
pub proof fn finalizing_comes_to_an_end(t: TrackerState, r: FinalRunState, event: Event)
    requires
        r.valid(t),
    ensures
        match (r.stage, final_resumed(t, r, event).run.stage) {
            (FinalStage::Closing { slot }, FinalStage::Closing { slot: next }) => slot < next
                < t.active.len(),
            (FinalStage::Closing { slot }, _) => true,
            (_, after) => after is Ended,
        },
{
    match (r.stage, event) {
        (FinalStage::Closing { slot }, Event::Stored) => {
            lemma_open_slot(t.active, slot + 1);
        },
        _ => {},
    }
}

/// A step of a price update changes no opportunity of another market, as long as no
/// signal reports it.
pub proof fn update_leaves_other_markets_alone(
    t: TrackerState,
    r: RunState,
    event: Event,
    j: int,
)
    requires
        r.valid(t),
        0 <= j < t.active.len(),
        t.active[j].market_id != r.snapshot.market_id,
        !reported(resumed(t, r, event).run.signals, t.active[j].key()),
    ensures
        resumed(t, r, event).tracker.active[j] == t.active[j],
{
    match (r.stage, event) {
        (Stage::Evaluating, Event::Evaluated { signals, costs }) => {
            lemma_advance_elsewhere(t, RunState { signals: signals@, costs, next_signal: 0, ..r }, j);
        },
        (Stage::Confirming { slot }, Event::Reestimated { fill_prob_bits }) => {
            let after = reestimated(t, slot as int, fill_prob_bits);
            assert(r.signals[r.next_signal].key() == t.active[slot as int].key());
            lemma_reestimated(t, slot as int, fill_prob_bits);
            lemma_advance_elsewhere(
                after,
                RunState { next_signal: r.next_signal + 1, ..r },
                j,
            );
        },
        (Stage::Inserting { opp }, Event::Inserted { id }) => {
            if t.total_detected < u64::MAX {
                let after = TrackerState {
                    active: t.active.push(TrackedOpportunity { id, ..opp }),
                    total_detected: (t.total_detected + 1) as u64,
                    ..t
                };
                assert(after.active[j] == t.active[j]);
                lemma_advance_elsewhere(
                    after,
                    RunState {
                        next_signal: r.next_signal + 1,
                        new_signals: r.new_signals.push(r.signals[r.next_signal]),
                        ..r
                    },
                    j,
                );
            }
        },
        (Stage::Storing { slot }, Event::Stored) => {
            if t.total_slipped < u64::MAX {
                lemma_gone_slot(t.active, r.snapshot.market_id, r.signals, slot + 1);
            }
        },
        _ => {},
    }
}

/// Taking a signal changes no opportunity of another market that no signal reports.
proof fn lemma_advance_elsewhere(t: TrackerState, r: RunState, j: int)
    requires
        0 <= r.next_signal <= r.signals.len(),
        0 <= j < t.active.len(),
        t.active[j].market_id != r.snapshot.market_id,
        !reported(r.signals, t.active[j].key()),
    ensures
        advance(t, r).tracker.active[j] == t.active[j],
{
    if r.next_signal < r.signals.len() {
        let signal = r.signals[r.next_signal];
        lemma_slot_of(t.active, signal.key(), 0);
        assert(signal.key() != t.active[j].key());
    } else {
        lemma_gone_slot(t.active, r.snapshot.market_id, r.signals, 0);
    }
}

/// The signals that an update reports as new are those of the opportunities that
/// it added: none of them was tracked before it, and all were detected by it.
pub proof fn new_signals_were_not_tracked(t: TrackerState, r: RunState, i: int, j: int)
    requires
        r.valid(t),
        0 <= i < r.new_signals.len(),
        0 <= j < t.active.len() - r.new_signals.len(),
    ensures
        r.new_signals[i].key() != t.active[j].key(),
        t.total_detected >= r.new_signals.len(),
{
    let slot = t.active.len() - r.new_signals.len() + i;
    assert(t.active[slot].key() == r.new_signals[i].key());
}

/// A price update in progress.
pub struct UpdateRun {
    snapshot: MarketSnapshot,
    description: String,
    signals: Vec<StrategySignal>,
    costs: ArbCosts,
    next_signal: usize,
    new_signals: Vec<StrategySignal>,
    stage: Stage,
}

impl View for UpdateRun {
    type V = RunState;

    closed spec fn view(&self) -> RunState {
        RunState {
            snapshot: self.snapshot,
            description: self.description,
            signals: self.signals@,
            costs: self.costs,
            next_signal: self.next_signal as int,
            new_signals: self.new_signals@,
            stage: self.stage,
        }
    }
}

impl UpdateRun {
    /// The signals that were found to be new, in the order in which they came.
    pub fn into_new_signals(self) -> (signals: Vec<StrategySignal>)
        ensures
            signals@ == self@.new_signals,
    {
        self.new_signals
    }
}

/// What is tracked in one session.
///
/// All fields are public, since Verus lets callers speak of the public counters only
/// where no field is private. What a step asks of a tracker is its well-formedness.
pub struct BacktestTracker {
    pub session_id: String,
    pub active: Vec<TrackedOpportunity>,
    pub last_snapshot_ns: HashMap<u16, u64>,
    pub total_detected: u64,
    pub total_confirmed: u64,
    pub total_slipped: u64,
    pub snapshot_count: u64,
}

impl View for BacktestTracker {
    type V = TrackerState;

    open spec fn view(&self) -> TrackerState {
        TrackerState {
            session_id: self.session_id@,
            active: self.active@,
            total_detected: self.total_detected,
            total_confirmed: self.total_confirmed,
            total_slipped: self.total_slipped,
            snapshot_count: self.snapshot_count,
            last_snapshot_ns: self.last_snapshot_ns@,
        }
    }
}

impl BacktestTracker {
    /// The public counters are those of the tracker's contents.
    pub proof fn counters_are_the_contents(&self)
        ensures
            self.total_detected == self@.total_detected,
            self.total_confirmed == self@.total_confirmed,
            self.total_slipped == self@.total_slipped,
            self.snapshot_count == self@.snapshot_count,
    {
    }

    /// A tracker for a session that has seen nothing yet.
    pub fn new(session_id: &str) -> (tracker: Self)
        ensures
            tracker@ == (TrackerState {
                session_id: session_id@,
                active: Seq::empty(),
                total_detected: 0,
                total_confirmed: 0,
                total_slipped: 0,
                snapshot_count: 0,
                last_snapshot_ns: Map::empty(),
            }),
            tracker@.wf(),
    {
        BacktestTracker {
            session_id: session_id.to_owned(),
            active: Vec::new(),
            last_snapshot_ns: HashMap::new(),
            total_detected: 0,
            total_confirmed: 0,
            total_slipped: 0,
            snapshot_count: 0,
        }
    }

    /// The identifier of the session.
    pub fn session_id(&self) -> (id: &str)
        ensures
            id@ == self@.session_id,
    {
        self.session_id.as_str()
    }

    /// The opportunities, in the order in which they were detected.
    pub fn active(&self) -> (active: &Vec<TrackedOpportunity>)
        ensures
            active@ == self@.active,
    {
        &self.active
    }

    /// The slot of the opportunity that a signal reports.
    fn find(&self, signal: &StrategySignal) -> (slot: usize)
        ensures
            slot == slot_of(self@.active, signal.key(), 0),
    {
        let mut slot: usize = 0;
        while slot < self.active.len()
            invariant
                slot <= self.active@.len(),
                slot_of(self@.active, signal.key(), 0) == slot_of(
                    self@.active,
                    signal.key(),
                    slot as int,
                ),
            decreases self.active@.len() - slot,
        {
            let opp: &TrackedOpportunity = &self.active[slot];
            if signal.reports(opp.strategy_id.as_str(), opp.market_id, opp.arb_type) {
                return slot;
            }
            slot += 1;
        }
        slot
    }

    /// The first slot at or after `from` whose opportunity is gone.
    fn find_gone(&self, market_id: u16, signals: &Vec<StrategySignal>, from: usize) -> (slot: usize)
        requires
            from <= self@.active.len(),
        ensures
            slot == gone_slot(self@.active, market_id, signals@, from as int),
    {
        let mut slot: usize = from;
        while slot < self.active.len()
            invariant
                slot <= self.active@.len(),
                gone_slot(self@.active, market_id, signals@, from as int) == gone_slot(
                    self@.active,
                    market_id,
                    signals@,
                    slot as int,
                ),
            decreases self.active@.len() - slot,
        {
            let opp: &TrackedOpportunity = &self.active[slot];
            let slipped: bool = match opp.state {
                OpportunityState::Slipped => true,
                _ => false,
            };
            if opp.market_id == market_id && !slipped && !any_reports(
                signals,
                opp.strategy_id.as_str(),
                opp.market_id,
                opp.arb_type,
            ) {
                return slot;
            }
            slot += 1;
        }
        slot
    }

    /// Looks for an opportunity that is gone, and slips it.
    fn sweep(&mut self, run: &mut UpdateRun, from: usize) -> (action: Action)
        requires
            from <= old(self)@.active.len(),
            old(self)@.active.len() <= u64::MAX,
        ensures
            (Step { tracker: final(self)@, run: final(run)@, action }) == sweep(
                old(self)@,
                old(run)@,
                from as int,
            ),
    {
        let slot: usize = self.find_gone(run.snapshot.market_id, &run.signals, from);
        proof {
            lemma_gone_slot(
                self@.active,
                run.snapshot.market_id,
                run.signals@,
                from as int,
            );
        }
        if slot < self.active.len() {
            let cost: Option<u16> = Some(run.costs.cost_of(self.active[slot].arb_type));
            if self.active[slot].can_slip(cost) {
                let fill_prob_bits: u64 = self.active[slot].estimated_fill_prob_bits;
                let step: FillStep = self.active[slot].update(
                    false,
                    cost,
                    run.snapshot.timestamp_ns,
                );
                run.stage = Stage::Slipping { slot: slot as u64 };
                return Action::Reestimate { fill_prob_bits, step };
            }
            run.stage = Stage::Ended;
            return Action::OutOfRange;
        }
        run.stage = Stage::Ended;
        Action::Finished
    }

    /// Takes the next signal of a run, or begins its sweep.
    fn advance(&mut self, run: &mut UpdateRun) -> (action: Action)
        requires
            old(self)@.wf(),
        ensures
            (Step { tracker: final(self)@, run: final(run)@, action }) == advance(
                old(self)@,
                old(run)@,
            ),
    {
        if run.next_signal < run.signals.len() {
            let now_ns: u64 = run.snapshot.timestamp_ns;
            let signal: &StrategySignal = &run.signals[run.next_signal];
            let slot: usize = self.find(signal);
            proof {
                lemma_slot_of(self@.active, signal.key(), 0);
            }
            if slot < self.active.len() {
                if self.active[slot].ticks_valid == u32::MAX {
                    run.stage = Stage::Ended;
                    return Action::OutOfRange;
                }
                let fill_prob_bits: u64 = self.active[slot].estimated_fill_prob_bits;
                let step: FillStep = self.active[slot].update(
                    true,
                    Some(signal.cost_cents),
                    now_ns,
                );
                if self.active[slot].ticks_valid == 2 {
                    proof {
                        lemma_seen_twice_update(
                            old(self)@.active,
                            slot as int,
                            self.active@[slot as int],
                        );
                        lemma_seen_twice_bound(self.active@);
                    }
                    self.total_confirmed = self.total_confirmed + 1;
                }
                run.stage = Stage::Confirming { slot: slot as u64 };
                return Action::Reestimate { fill_prob_bits, step };
            }
            let mut opp: TrackedOpportunity = TrackedOpportunity::from_described_signal(
                signal,
                run.description.clone(),
            );
            opp.detected_at_ns = now_ns;
            opp.last_seen_ns = now_ns;
            run.stage = Stage::Inserting { opp: opp.clone() };
            return Action::InsertOpportunity { opp };
        }
        self.sweep(run, 0)
    }

    /// Begins a price update at `now_ns`. `has_all_prices` says whether the
    /// snapshot has a price for each leg on each venue: only such a snapshot is
    /// sampled.
    pub fn process_update(
        &self,
        snapshot: &MarketSnapshot,
        has_all_prices: bool,
        market_description: &str,
        now_ns: u64,
    ) -> (begun: (UpdateRun, Action))
        ensures
            (Step { tracker: self@, run: begun.0@, action: begun.1 }) == begin(
                self@,
                *snapshot,
                has_all_prices,
                begun.0@.description,
                now_ns,
            ),
            begun.0@.description@ == market_description@,
            self@.wf() ==> begun.0@.valid(self@),
    {
        self.begin_update(snapshot, has_all_prices, market_description.to_owned(), now_ns)
    }

    /// Begins a price update at `now_ns` of a market whose description is handed
    /// over.
    pub fn begin_update(
        &self,
        snapshot: &MarketSnapshot,
        has_all_prices: bool,
        description: String,
        now_ns: u64,
    ) -> (begun: (UpdateRun, Action))
        ensures
            (Step { tracker: self@, run: begun.0@, action: begun.1 }) == begin(
                self@,
                *snapshot,
                has_all_prices,
                description,
                now_ns,
            ),
            begun.0@.description == description,
            self@.wf() ==> begun.0@.valid(self@),
    {
        let mut run = UpdateRun {
            snapshot: snapshot.stamped(now_ns),
            description,
            signals: Vec::new(),
            costs: ArbCosts {
                poly_yes_kalshi_no: 0,
                kalshi_yes_poly_no: 0,
                poly_only: 0,
                kalshi_only: 0,
            },
            next_signal: 0,
            new_signals: Vec::new(),
            stage: Stage::Evaluating,
        };
        let due: bool = match self.last_snapshot_ns.get(&snapshot.market_id) {
            Some(last) => {
                if now_ns < *last {
                    run.stage = Stage::Ended;
                    return (run, Action::OutOfRange);
                }
                now_ns - *last > SNAPSHOT_INTERVAL_NS
            },
            None => true,
        };
        let sample: MarketSnapshot = run.snapshot;
        if due && has_all_prices {
            run.stage = Stage::Sampling;
            (run, Action::SaveSnapshot { snapshot: sample })
        } else {
            (run, Action::Evaluate { snapshot: sample })
        }
    }

    /// Takes a price update one step further with what came of its last action.
    /// An event that does not answer that action ends the run.
    pub fn resume(&mut self, run: &mut UpdateRun, event: Event) -> (action: Action)
        requires
            old(run)@.valid(old(self)@),
        ensures
            (Step { tracker: final(self)@, run: final(run)@, action }) == resumed(
                old(self)@,
                old(run)@,
                event,
            ),
            final(run)@.valid(final(self)@),
            action is Finished ==> final(run)@.settled(final(self)@),
    {
        proof {
            update_settles_its_market(self@, run@, event);
            assert(self.active.len() == self.active@.len());
            assert(run.signals.len() == run.signals@.len());
        }
        let mut stage: Stage = Stage::Ended;
        std::mem::swap(&mut stage, &mut run.stage);
        match (stage, event) {
            (Stage::Sampling, Event::Stored) => {
                if self.snapshot_count == u64::MAX {
                    return Action::OutOfRange;
                }
                self.last_snapshot_ns.insert(run.snapshot.market_id, run.snapshot.timestamp_ns);
                self.snapshot_count = self.snapshot_count + 1;
                run.stage = Stage::Evaluating;
                Action::Evaluate { snapshot: run.snapshot }
            },
            (Stage::Evaluating, Event::Evaluated { signals, costs }) => {
                run.signals = signals;
                run.costs = costs;
                run.next_signal = 0;
                self.advance(run)
            },
            (Stage::Confirming { slot }, Event::Reestimated { fill_prob_bits }) => {
                self.active[slot as usize].estimated_fill_prob_bits = fill_prob_bits;
                proof {
                    lemma_reestimated(old(self)@, slot as int, fill_prob_bits);
                }
                run.next_signal = run.next_signal + 1;
                self.advance(run)
            },
            (Stage::Inserting { opp }, Event::Inserted { id }) => {
                if self.total_detected == u64::MAX {
                    return Action::OutOfRange;
                }
                let mut stored: TrackedOpportunity = opp;
                stored.id = id;
                self.active.push(stored);
                self.total_detected = self.total_detected + 1;
                run.new_signals.push(run.signals[run.next_signal].clone());
                proof {
                    lemma_slot_of(old(self)@.active, opp.key(), 0);
                    assert(self.active@.drop_last() =~= old(self)@.active);
                    assert(self@.wf());
                }
                run.next_signal = run.next_signal + 1;
                self.advance(run)
            },
            (Stage::Slipping { slot }, Event::Reestimated { fill_prob_bits }) => {
                self.active[slot as usize].estimated_fill_prob_bits = fill_prob_bits;
                run.stage = Stage::Storing { slot };
                Action::UpdateOpportunity { opp: self.active[slot as usize].clone() }
            },
            (Stage::Storing { slot }, Event::Stored) => {
                if self.total_slipped == u64::MAX {
                    return Action::OutOfRange;
                }
                self.total_slipped = self.total_slipped + 1;
                self.sweep(run, slot as usize + 1)
            },
            _ => Action::Aborted,
        }
    }

    /// The first slot at or after `from` whose opportunity has not slipped.
    fn find_open(&self, from: usize) -> (slot: usize)
        requires
            from <= self@.active.len(),
        ensures
            slot == open_slot(self@.active, from as int),
    {
        let mut slot: usize = from;
        while slot < self.active.len()
            invariant
                slot <= self.active@.len(),
                open_slot(self@.active, from as int) == open_slot(self@.active, slot as int),
            decreases self.active@.len() - slot,
        {
            match self.active[slot].state {
                OpportunityState::Slipped => {},
                _ => {
                    return slot;
                },
            }
            slot += 1;
        }
        slot
    }

    /// Closes the next opportunity that has not slipped, or totals the session.
    fn close_next(&mut self, run: &mut FinalizeRun, from: usize) -> (action: Action)
        requires
            old(self)@.wf(),
            from <= old(self)@.active.len(),
        ensures
            (FinalStep { tracker: final(self)@, run: final(run)@, action }) == close_next(
                old(self)@,
                old(run)@,
                from as int,
            ),
    {
        let slot: usize = self.find_open(from);
        proof {
            lemma_open_slot(self@.active, from as int);
            sampled_markets_fit(self@);
        }
        if slot < self.active.len() {
            self.active[slot].close_profitable(run.now_ns);
            run.stage = FinalStage::Closing { slot: slot as u64 };
            Action::UpdateOpportunity { opp: self.active[slot].clone() }
        } else {
            run.stage = FinalStage::Totalling;
            Action::EndSession {
                markets_tracked: self.last_snapshot_ns.len() as u32,
                opportunities: (self.total_detected % 0x1_0000_0000) as u32,
            }
        }
    }

    /// Begins the end of the session at `now_ns`: every opportunity that has not
    /// slipped is closed and stored, then the totals are.
    pub fn finalize(&mut self, now_ns: u64) -> (begun: (FinalizeRun, Action))
        requires
            old(self)@.wf(),
        ensures
            (FinalStep { tracker: final(self)@, run: begun.0@, action: begun.1 }) == close_next(
                old(self)@,
                FinalRunState { now_ns, stage: FinalStage::Ended },
                0,
            ),
            begun.0@.valid(final(self)@),
    {
        let mut run = FinalizeRun { now_ns, stage: FinalStage::Ended };
        proof {
            lemma_close_next(self@, run@, 0);
        }
        let action: Action = self.close_next(&mut run, 0);
        (run, action)
    }

    /// Takes the end of the session one step further with what came of its last
    /// action. An event that does not answer that action ends the run.
    pub fn resume_finalize(&mut self, run: &mut FinalizeRun, event: Event) -> (action: Action)
        requires
            old(run)@.valid(old(self)@),
        ensures
            (FinalStep { tracker: final(self)@, run: final(run)@, action }) == final_resumed(
                old(self)@,
                old(run)@,
                event,
            ),
            final(run)@.valid(final(self)@),
            action is Finished ==> final(run)@.closed_before(
                final(self)@,
                final(self)@.active.len() as int,
            ),
    {
        proof {
            finalizing_closes_everything(self@, run@, event);
            assert(self.active.len() == self.active@.len());
        }
        let mut stage: FinalStage = FinalStage::Ended;
        std::mem::swap(&mut stage, &mut run.stage);
        match (stage, event) {
            (FinalStage::Closing { slot }, Event::Stored) => self.close_next(
                run,
                slot as usize + 1,
            ),
            (FinalStage::Totalling, Event::Stored) => Action::Finished,
            _ => Action::Aborted,
        }
    }

    /// How many opportunities were detected, confirmed and slipped, and how many
    /// samples were taken.
    pub fn stats(&self) -> (stats: (u64, u64, u64, u64))
        ensures
            stats == (
                self@.total_detected,
                self@.total_confirmed,
                self@.total_slipped,
                self@.snapshot_count,
            ),
    {
        (self.total_detected, self.total_confirmed, self.total_slipped, self.snapshot_count)
    }
}

/// The end of a session in progress.
pub struct FinalizeRun {
    now_ns: u64,
    stage: FinalStage,
}

impl View for FinalizeRun {
    type V = FinalRunState;

    closed spec fn view(&self) -> FinalRunState {
        FinalRunState { now_ns: self.now_ns, stage: self.stage }
    }
}

} // verus!
