//! What holds of whole runs of the tracker: what a finished price update reports as
//! new, what it found gone, and what the end of a session leaves of each opportunity.

use crate::counting::{lemma_filter_none, lemma_filter_step};
use crate::opportunity::{FillStep, TrackedOpportunity};
use crate::signal::{reported, ArbCosts, ArbType, MarketSnapshot, OpportunityKey, StrategySignal};
use crate::tracker::{
    advance, any_update_keeps_the_tracker, begin, close_next, driven, final_resumed, gone,
    gone_slot, lemma_gone_slot, lemma_open_slot, lemma_slot_of, open_slot, reestimated, resumed,
    sampled_markets_fit, seen_twice, slot_of, sweep, update_forgets_nothing, Action, Event, FinalRunState, FinalStage, FinalStep, RunState,
    Stage, Step, TrackerState,
};
use vstd::prelude::*;

verus! {

/// Whether an opportunity is tracked.
pub open spec fn is_known(active: Seq<TrackedOpportunity>, key: OpportunityKey) -> bool {
    exists|j: int| 0 <= j < active.len() && (#[trigger] active[j]).key() == key
}

/// The first signal of each opportunity that was not tracked, in order.
pub open spec fn first_reports(
    signals: Seq<StrategySignal>,
    active: Seq<TrackedOpportunity>,
) -> Seq<StrategySignal>
    decreases signals.len(),
{
    if signals.len() == 0 {
        Seq::empty()
    } else {
        let earlier = signals.drop_last();
        let signal = signals.last();
        if is_known(active, signal.key()) || reported(earlier, signal.key()) {
            first_reports(earlier, active)
        } else {
            first_reports(earlier, active).push(signal)
        }
    }
}

/// How many opportunities an update of `market_id` that brought `signals` finds gone.
pub open spec fn gone_count(
    active: Seq<TrackedOpportunity>,
    market_id: u16,
    signals: Seq<StrategySignal>,
) -> nat
    decreases active.len(),
{
    if active.len() == 0 {
        0
    } else {
        gone_count(active.drop_last(), market_id, signals) + if gone(
            active.last(),
            market_id,
            signals,
        ) {
            1nat
        } else {
            0nat
        }
    }
}

/// The record of an opportunity that vanished: it slipped at the cost of its own
/// kind, whatever its fill probability is now.
pub open spec fn slipped_at_its_cost(
    after: TrackedOpportunity,
    before: TrackedOpportunity,
    costs: ArbCosts,
    now_ns: u64,
) -> bool {
    &&& before.slip_fits(Some(costs.cost(before.arb_type)))
    &&& after == (TrackedOpportunity {
        estimated_fill_prob_bits: after.estimated_fill_prob_bits,
        ..before.slipped(Some(costs.cost(before.arb_type)), now_ns)
    })
}

/// How many signals report an opportunity.
pub open spec fn mentions(signals: Seq<StrategySignal>, key: OpportunityKey) -> nat
    decreases signals.len(),
{
    if signals.len() == 0 {
        0
    } else {
        mentions(signals.drop_last(), key) + if signals.last().key() == key {
            1nat
        } else {
            0nat
        }
    }
}

/// An opportunity after signals, confirmed once by each that reports it.
pub open spec fn seen(
    opp: TrackedOpportunity,
    signals: Seq<StrategySignal>,
    now_ns: u64,
) -> TrackedOpportunity
    decreases signals.len(),
{
    if signals.len() == 0 {
        opp
    } else {
        let before = seen(opp, signals.drop_last(), now_ns);
        if signals.last().key() == opp.key() {
            before.confirmed(Some(signals.last().cost_cents), now_ns)
        } else {
            before
        }
    }
}

/// The record of an opportunity that signals reported: each has confirmed it, whatever
/// its fill probability is now.
pub open spec fn seen_again(
    after: TrackedOpportunity,
    before: TrackedOpportunity,
    signals: Seq<StrategySignal>,
    now_ns: u64,
) -> bool {
    &&& after == (TrackedOpportunity {
        estimated_fill_prob_bits: after.estimated_fill_prob_bits,
        ..seen(before, signals, now_ns)
    })
    &&& after.ticks_valid == before.ticks_valid + mentions(signals, before.key())
}

/// Whether a record is what a signal reports, first seen at `now_ns`, with nothing lost
/// yet.
pub open spec fn stands_for(
    opp: TrackedOpportunity,
    signal: StrategySignal,
    description: String,
    now_ns: u64,
) -> bool {
    &&& opp.strategy_id == signal.strategy_id
    &&& opp.market_id == signal.market_id
    &&& opp.market_description == description
    &&& opp.arb_type == signal.arb_type
    &&& opp.detected_at_ns == now_ns
    &&& opp.last_seen_ns == now_ns
    &&& opp.detected_cost == signal.cost_cents
    &&& opp.detected_profit == signal.profit_cents
    &&& opp.adjusted_profit == signal.profit_cents
    &&& opp.detected_yes_price == signal.yes_price
    &&& opp.detected_no_price == signal.no_price
    &&& opp.detected_yes_size == signal.yes_size
    &&& opp.detected_no_size == signal.no_size
    &&& opp.detected_confidence_bits == signal.confidence_bits
    &&& opp.estimated_slippage == 0
    &&& opp.final_cost is None
    &&& opp.duration_ns == 0
}

/// Whether the run's signals and costs are what the strategies answered.
pub open spec fn heard(events: Seq<Event>, r: RunState) -> bool {
    exists|i: int|
        0 <= i < events.len() && ((#[trigger] events[i]) matches Event::Evaluated { signals, costs }
            && signals@ == r.signals && costs == r.costs)
}

/// Each reported opportunity that was not tracked has exactly one first report, and
/// there is none but of those.
pub proof fn first_reports_list_each_once(
    signals: Seq<StrategySignal>,
    active: Seq<TrackedOpportunity>,
)
    ensures
        forall|i: int|
            0 <= i < first_reports(signals, active).len() ==> reported(
                signals,
                (#[trigger] first_reports(signals, active)[i]).key(),
            ) && !is_known(active, first_reports(signals, active)[i].key()),
        forall|i: int, j: int|
            0 <= i < j < first_reports(signals, active).len() ==> (#[trigger] first_reports(
                signals,
                active,
            )[i]).key() != (#[trigger] first_reports(signals, active)[j]).key(),
        forall|k: int|
            0 <= k < signals.len() && !is_known(active, (#[trigger] signals[k]).key()) ==> reported(
                first_reports(signals, active),
                signals[k].key(),
            ),
    decreases signals.len(),
{
    if signals.len() > 0 {
        let earlier = signals.drop_last();
        let before = first_reports(earlier, active);
        let all = first_reports(signals, active);
        first_reports_list_each_once(earlier, active);
        assert forall|i: int| 0 <= i < all.len() implies reported(
            signals,
            (#[trigger] all[i]).key(),
        ) && !is_known(active, all[i].key()) by {
            if i < before.len() {
                assert(all[i] == before[i]);
                let k = choose|k: int|
                    0 <= k < earlier.len() && (#[trigger] earlier[k]).key() == before[i].key();
                assert(signals[k].key() == all[i].key());
            } else {
                assert(signals[signals.len() - 1].key() == all[i].key());
            }
        }
        assert forall|i: int, j: int| 0 <= i < j < all.len() implies (#[trigger] all[i]).key() != (
        #[trigger] all[j]).key() by {
            assert(all[i] == before[i]);
            if j < before.len() {
                assert(all[j] == before[j]);
            } else {
                assert(reported(earlier, before[i].key()));
            }
        }
        assert forall|k: int|
            0 <= k < signals.len() && !is_known(active, (
            #[trigger] signals[k]).key()) implies reported(all, signals[k].key()) by {
            if k == signals.len() - 1 && all.len() > before.len() {
                assert(all[all.len() - 1].key() == signals[k].key());
            } else {
                let e = if k < signals.len() - 1 {
                    k
                } else {
                    choose|e: int|
                        0 <= e < earlier.len() && (#[trigger] earlier[e]).key() == signals[k].key()
                };
                assert(earlier[e].key() == signals[k].key());
                assert(reported(before, earlier[e].key()));
                let i = choose|i: int|
                    0 <= i < before.len() && (#[trigger] before[i]).key() == earlier[e].key();
                assert(all[i].key() == signals[k].key());
            }
        }
    }
}

/// Where nothing between two slots is gone, as many are gone before the one as before
/// the other.
proof fn lemma_none_gone(
    active: Seq<TrackedOpportunity>,
    market_id: u16,
    signals: Seq<StrategySignal>,
    from: int,
    to: int,
)
    requires
        0 <= from <= to <= active.len(),
        forall|j: int| from <= j < to ==> !gone(#[trigger] active[j], market_id, signals),
    ensures
        gone_count(active.take(to), market_id, signals) == gone_count(
            active.take(from),
            market_id,
            signals,
        ),
    decreases to - from,
{
    if from < to {
        lemma_none_gone(active, market_id, signals, from, to - 1);
        assert(active.take(to).drop_last() =~= active.take(to - 1));
        assert(active.take(to).last() == active[to - 1]);
    }
}

/// What holds between the tracker at the start of an update and the tracker now, when
/// the slots before `done` were looked at and those before `counted` are counted.
spec fn follows(
    start: TrackerState,
    t: TrackerState,
    r: RunState,
    done: int,
    counted: int,
) -> bool {
    &&& t.active.len() == start.active.len() + r.new_signals.len()
    &&& 0 <= r.next_signal <= r.signals.len()
    &&& r.new_signals == first_reports(r.signals.take(r.next_signal), start.active)
    &&& forall|j: int|
        0 <= j < start.active.len() ==> (#[trigger] t.active[j]).key() == start.active[j].key()
    &&& forall|i: int|
        0 <= i < r.new_signals.len() ==> (#[trigger] r.new_signals[i]).key()
            == t.active[start.active.len() + i].key()
    &&& forall|j: int|
        0 <= j < start.active.len() && !reported(r.signals, start.active[j].key()) ==> if j < done
            && gone(start.active[j], r.snapshot.market_id, r.signals) {
            slipped_at_its_cost(
                #[trigger] t.active[j],
                start.active[j],
                r.costs,
                r.snapshot.timestamp_ns,
            )
        } else {
            t.active[j] == start.active[j]
        }
    &&& t.total_slipped == start.total_slipped + gone_count(
        start.active.take(counted),
        r.snapshot.market_id,
        r.signals,
    )
}

/// What holds of the opportunities that were known at the start of an update and that
/// its signals report, when the first `n` signals were taken.
spec fn confirms(start: TrackerState, t: TrackerState, r: RunState, n: int) -> bool {
    forall|j: int|
        0 <= j < start.active.len() && reported(r.signals, start.active[j].key()) ==> seen_again(
            #[trigger] t.active[j],
            start.active[j],
            r.signals.take(n),
            r.snapshot.timestamp_ns,
        )
}

/// What holds of the records that an update added, when its first `n` signals were
/// taken.
spec fn added(start: TrackerState, t: TrackerState, r: RunState, n: int) -> bool {
    forall|j: int|
        start.active.len() <= j < t.active.len() ==> {
            let opp = #[trigger] t.active[j];
            &&& stands_for(
                opp,
                r.new_signals[j - start.active.len()],
                r.description,
                r.snapshot.timestamp_ns,
            )
            &&& opp.ticks_valid == mentions(r.signals.take(n), opp.key())
            &&& opp.ticks_valid == 1 ==> opp.state is Detected
            &&& opp.ticks_valid > 1 ==> opp.state is Confirmed
            &&& opp.ticks_valid >= 1
        }
}

/// What holds between the tracker at the start of an update and the tracker at each
/// stage of it.
spec fn stage_follows(start: TrackerState, t: TrackerState, r: RunState) -> bool {
    match r.stage {
        Stage::Sampling => begun(start, t, r),
        Stage::Evaluating => begun(start, t, r),
        Stage::Confirming { slot } => {
            &&& r.next_signal < r.signals.len()
            &&& follows(start, t, r, 0, 0)
            &&& confirms(start, t, r, r.next_signal + 1)
            &&& added(start, t, r, r.next_signal + 1)
        },
        Stage::Inserting { opp } => {
            &&& follows(start, t, r, 0, 0)
            &&& confirms(start, t, r, r.next_signal)
            &&& added(start, t, r, r.next_signal)
        },
        Stage::Slipping { slot } => {
            &&& slot < start.active.len()
            &&& r.next_signal == r.signals.len()
            &&& gone(start.active[slot as int], r.snapshot.market_id, r.signals)
            &&& follows(start, t, r, slot + 1, slot as int)
            &&& confirms(start, t, r, r.next_signal)
            &&& added(start, t, r, r.next_signal)
        },
        Stage::Storing { slot } => {
            &&& slot < start.active.len()
            &&& r.next_signal == r.signals.len()
            &&& gone(start.active[slot as int], r.snapshot.market_id, r.signals)
            &&& follows(start, t, r, slot + 1, slot as int)
            &&& confirms(start, t, r, r.next_signal)
            &&& added(start, t, r, r.next_signal)
        },
        Stage::Ended => true,
    }
}

/// Before the strategies were heard nothing has changed but the samples.
spec fn begun(start: TrackerState, t: TrackerState, r: RunState) -> bool {
    &&& t.active == start.active
    &&& t.total_slipped == start.total_slipped
    &&& r.signals.len() == 0
    &&& r.new_signals.len() == 0
    &&& r.next_signal == 0
}

/// Whether an update has taken all signals and looked at all slots.
spec fn complete(start: TrackerState, t: TrackerState, r: RunState) -> bool {
    &&& r.next_signal == r.signals.len()
    &&& follows(start, t, r, start.active.len() as int, start.active.len() as int)
    &&& confirms(start, t, r, r.next_signal)
    &&& added(start, t, r, r.next_signal)
}

/// What holds after a step: the run goes on as it should, or it is over, and where it
/// is finished it is complete. What is stored over its record was gone.
spec fn step_follows(start: TrackerState, step: Step) -> bool {
    &&& stage_follows(start, step.tracker, step.run)
    &&& step.action matches Action::UpdateOpportunity { opp } ==> !reported(
        step.run.signals,
        opp.key(),
    )
    &&& step.action is Finished ==> complete(start, step.tracker, step.run)
}

/// An opportunity in a slot that the update added is reported, and was not known.
proof fn lemma_added_is_reported(start: TrackerState, t: TrackerState, r: RunState, j: int)
    requires
        start.active.len() <= j < t.active.len(),
        t.active.len() == start.active.len() + r.new_signals.len(),
        0 <= r.next_signal <= r.signals.len(),
        r.new_signals == first_reports(r.signals.take(r.next_signal), start.active),
        forall|i: int|
            0 <= i < r.new_signals.len() ==> (#[trigger] r.new_signals[i]).key()
                == t.active[start.active.len() + i].key(),
    ensures
        reported(r.signals.take(r.next_signal), t.active[j].key()),
        reported(r.signals, t.active[j].key()),
        !is_known(start.active, t.active[j].key()),
{
    let heard_so_far = r.signals.take(r.next_signal);
    first_reports_list_each_once(heard_so_far, start.active);
    let i = j - start.active.len();
    assert(r.new_signals[i].key() == t.active[j].key());
    assert(reported(heard_so_far, first_reports(heard_so_far, start.active)[i].key()));
    let k = choose|k: int|
        0 <= k < heard_so_far.len() && (#[trigger] heard_so_far[k]).key() == t.active[j].key();
    assert(r.signals[k].key() == t.active[j].key());
}

/// No two slots hold the same opportunity, where one of them was added.
proof fn lemma_added_differ(start: TrackerState, t: TrackerState, r: RunState, j: int, k: int)
    requires
        start.active.len() <= j < t.active.len(),
        0 <= k < t.active.len(),
        j != k,
        follows(start, t, r, 0, 0),
    ensures
        t.active[j].key() != t.active[k].key(),
{
    lemma_added_is_reported(start, t, r, j);
    if k < start.active.len() {
        assert(t.active[k].key() == start.active[k].key());
    } else {
        let heard_so_far = r.signals.take(r.next_signal);
        first_reports_list_each_once(heard_so_far, start.active);
        let a = j - start.active.len();
        let b = k - start.active.len();
        assert(r.new_signals[a].key() == t.active[j].key());
        assert(r.new_signals[b].key() == t.active[k].key());
        if a < b {
            assert(first_reports(heard_so_far, start.active)[a].key() != first_reports(
                heard_so_far,
                start.active,
            )[b].key());
        } else {
            assert(first_reports(heard_so_far, start.active)[b].key() != first_reports(
                heard_so_far,
                start.active,
            )[a].key());
        }
    }
}

/// The sweep slips what is gone, one after the other.
#[verifier::spinoff_prover]
#[verifier::rlimit(60)]
proof fn lemma_sweep_follows(start: TrackerState, t: TrackerState, r: RunState, from: int)
    requires
        0 <= from <= start.active.len(),
        r.next_signal == r.signals.len(),
        follows(start, t, r, from, from),
        confirms(start, t, r, r.next_signal),
        added(start, t, r, r.next_signal),
        start.active.len() <= u64::MAX,
    ensures
        step_follows(start, sweep(t, r, from)),
{
    let market_id = r.snapshot.market_id;
    lemma_gone_slot(t.active, market_id, r.signals, from);
    let slot = gone_slot(t.active, market_id, r.signals, from);
    let limit = if slot < start.active.len() {
        slot
    } else {
        start.active.len() as int
    };
    assert forall|j: int| from <= j < limit implies !gone(
        #[trigger] start.active[j],
        market_id,
        r.signals,
    ) by {
        assert(!gone(t.active[j], market_id, r.signals));
        assert(t.active[j].key() == start.active[j].key());
    }
    lemma_none_gone(start.active, market_id, r.signals, from, limit);
    let after = sweep(t, r, from);
    if slot < t.active.len() {
        if slot >= start.active.len() {
            lemma_added_is_reported(start, t, r, slot);
        }
        assert(slot < start.active.len());
        assert(t.active[slot].key() == start.active[slot].key());
        assert(t.active[slot] == start.active[slot]);
        let opp = t.active[slot];
        if opp.slip_fits(Some(r.costs.cost(opp.arb_type))) {
            assert(follows(start, after.tracker, after.run, slot + 1, slot));
            assert(confirms(start, after.tracker, after.run, r.next_signal));
            assert(added(start, after.tracker, after.run, r.next_signal));
        }
    } else {
        assert(after.run.signals == r.signals);
        assert forall|j: int|
            0 <= j < start.active.len() && !reported(
                r.signals,
                start.active[j].key(),
            ) implies if gone(start.active[j], market_id, r.signals) {
            slipped_at_its_cost(
                #[trigger] t.active[j],
                start.active[j],
                r.costs,
                r.snapshot.timestamp_ns,
            )
        } else {
            t.active[j] == start.active[j]
        } by {
            if j >= from {
                assert(!gone(start.active[j], market_id, r.signals));
            }
        }
        assert(complete(start, after.tracker, after.run));
    }
}

/// One more signal confirms its own opportunity, and no other.
proof fn lemma_one_more(
    after: TrackedOpportunity,
    before: TrackedOpportunity,
    signals: Seq<StrategySignal>,
    n: int,
    now_ns: u64,
)
    requires
        0 <= n < signals.len(),
        seen_again(after, before, signals.take(n), now_ns),
    ensures
        signals[n].key() != before.key() ==> seen_again(
            after,
            before,
            signals.take(n + 1),
            now_ns,
        ),
        signals[n].key() == before.key() && after.ticks_valid < u32::MAX ==> seen_again(
            after.confirmed(Some(signals[n].cost_cents), now_ns),
            before,
            signals.take(n + 1),
            now_ns,
        ),
{
    assert(signals.take(n + 1).drop_last() =~= signals.take(n));
    assert(signals.take(n + 1).last() == signals[n]);
}

/// One more signal mentions its own opportunity once more.
proof fn lemma_one_more_mention(signals: Seq<StrategySignal>, n: int, key: OpportunityKey)
    requires
        0 <= n < signals.len(),
    ensures
        mentions(signals.take(n + 1), key) == mentions(signals.take(n), key) + if signals[n].key()
            == key {
            1nat
        } else {
            0nat
        },
{
    assert(signals.take(n + 1).drop_last() =~= signals.take(n));
    assert(signals.take(n + 1).last() == signals[n]);
}

/// Taking the next signal confirms its opportunity, and leaves alone what no signal
/// reports.
#[verifier::spinoff_prover]
#[verifier::rlimit(60)]
proof fn lemma_advance_follows(start: TrackerState, t: TrackerState, r: RunState)
    requires
        start.wf(),
        follows(start, t, r, 0, 0),
        confirms(start, t, r, r.next_signal),
        added(start, t, r, r.next_signal),
        start.active.len() <= u64::MAX,
    ensures
        step_follows(start, advance(t, r)),
{
    if r.next_signal < r.signals.len() {
        let signal = r.signals[r.next_signal];
        let slot = slot_of(t.active, signal.key(), 0);
        lemma_slot_of(t.active, signal.key(), 0);
        let after = advance(t, r);
        if slot < t.active.len() {
            assert(t.active[slot].key() == signal.key());
            assert(reported(r.signals, signal.key()));
            if t.active[slot].ticks_valid < u32::MAX {
                assert(follows(start, after.tracker, after.run, 0, 0)) by {
                    assert forall|i: int| 0 <= i < r.new_signals.len() implies (
                    #[trigger] r.new_signals[i]).key() == after.tracker.active[start.active.len()
                        + i].key() by {
                        assert(r.new_signals[i].key() == t.active[start.active.len() + i].key());
                    }
                }
                let n = r.next_signal;
                let now_ns = r.snapshot.timestamp_ns;
                if slot >= start.active.len() {
                    lemma_added_is_reported(start, t, r, slot);
                }
                assert forall|j: int|
                    0 <= j < start.active.len() && reported(
                        r.signals,
                        start.active[j].key(),
                    ) implies seen_again(
                    #[trigger] after.tracker.active[j],
                    start.active[j],
                    r.signals.take(n + 1),
                    now_ns,
                ) by {
                    assert(t.active[j].key() == start.active[j].key());
                    lemma_one_more(t.active[j], start.active[j], r.signals, n, now_ns);
                    if j != slot {
                        if slot < start.active.len() {
                            assert(t.active[slot].key() == start.active[slot].key());
                        }
                        assert(start.active[j].key() != signal.key());
                    }
                }
                assert(confirms(start, after.tracker, after.run, n + 1));
                assert forall|j: int| start.active.len() <= j < t.active.len() implies {
                    let opp = #[trigger] after.tracker.active[j];
                    &&& stands_for(
                        opp,
                        r.new_signals[j - start.active.len()],
                        r.description,
                        now_ns,
                    )
                    &&& opp.ticks_valid == mentions(r.signals.take(n + 1), opp.key())
                    &&& opp.ticks_valid == 1 ==> opp.state is Detected
                    &&& opp.ticks_valid > 1 ==> opp.state is Confirmed
                    &&& opp.ticks_valid >= 1
                } by {
                    lemma_one_more_mention(r.signals, n, t.active[j].key());
                    if j != slot {
                        lemma_added_differ(start, t, r, j, slot);
                    }
                    assert(stands_for(
                        t.active[j],
                        r.new_signals[j - start.active.len()],
                        r.description,
                        now_ns,
                    ));
                }
                assert(added(start, after.tracker, after.run, n + 1));
            }
        } else {
            assert(follows(start, after.tracker, after.run, 0, 0));
            assert(confirms(start, after.tracker, after.run, r.next_signal));
            assert(added(start, after.tracker, after.run, r.next_signal));
        }
    } else {
        lemma_sweep_follows(start, t, r, 0);
    }
}

/// An update follows from its start once the strategies were heard.
#[verifier::spinoff_prover]
#[verifier::rlimit(60)]
proof fn lemma_evaluated_follows(
    start: TrackerState,
    t: TrackerState,
    r: RunState,
    signals: Vec<StrategySignal>,
    costs: ArbCosts,
)
    requires
        r.valid(t),
        stage_follows(start, t, r),
        start.wf(),
        r.stage is Evaluating,
    ensures
        step_follows(start, resumed(t, r, Event::Evaluated { signals, costs })),
{
    let next = RunState { signals: signals@, costs, next_signal: 0, ..r };
    assert(next.signals.take(0) =~= Seq::<StrategySignal>::empty());
    assert(r.new_signals =~= Seq::<StrategySignal>::empty());
    assert(start.active.take(0) =~= Seq::<TrackedOpportunity>::empty());
    assert(confirms(start, t, next, 0));
    assert(added(start, t, next, 0));
    lemma_advance_follows(start, t, next);
}

/// The tracker after a confirmed opportunity was estimated, before the next signal.
#[verifier::spinoff_prover]
#[verifier::rlimit(60)]
proof fn lemma_confirmed_state(
    start: TrackerState,
    t: TrackerState,
    r: RunState,
    slot: u64,
    fill_prob_bits: u64,
)
    requires
        r.valid(t),
        stage_follows(start, t, r),
        start.wf(),
        r.stage == (Stage::Confirming { slot }),
    ensures
        ({
            let after = reestimated(t, slot as int, fill_prob_bits);
            let next = RunState { next_signal: r.next_signal + 1, ..r };
            &&& follows(start, after, next, 0, 0)
            &&& confirms(start, after, next, next.next_signal)
            &&& added(start, after, next, next.next_signal)
        }),
{
    let after = reestimated(t, slot as int, fill_prob_bits);
    let next = RunState { next_signal: r.next_signal + 1, ..r };
    let n = r.next_signal;
    let key = r.signals[n].key();
    assert(r.signals.take(n + 1).drop_last() =~= r.signals.take(n));
    assert(r.signals.take(n + 1).last() == r.signals[n]);
    if slot < start.active.len() {
        assert(start.active[slot as int].key() == t.active[slot as int].key());
        assert(is_known(start.active, key));
    } else {
        lemma_added_is_reported(start, t, r, slot as int);
    }
    assert(reported(r.signals, key));
    assert forall|i: int| 0 <= i < r.new_signals.len() implies (
    #[trigger] r.new_signals[i]).key() == after.active[start.active.len() + i].key() by {
        assert(r.new_signals[i].key() == t.active[start.active.len() + i].key());
    }
    assert(follows(start, after, next, 0, 0));
    assert(confirms(start, after, next, n + 1)) by {
        assert forall|j: int|
            0 <= j < start.active.len() && reported(
                r.signals,
                start.active[j].key(),
            ) implies seen_again(
            #[trigger] after.active[j],
            start.active[j],
            r.signals.take(n + 1),
            r.snapshot.timestamp_ns,
        ) by {
            assert(seen_again(
                t.active[j],
                start.active[j],
                r.signals.take(n + 1),
                r.snapshot.timestamp_ns,
            ));
        }
    }
    assert forall|j: int| start.active.len() <= j < t.active.len() implies {
        let opp = #[trigger] after.active[j];
        &&& stands_for(
            opp,
            r.new_signals[j - start.active.len()],
            r.description,
            r.snapshot.timestamp_ns,
        )
        &&& opp.ticks_valid == mentions(r.signals.take(n + 1), opp.key())
        &&& opp.ticks_valid == 1 ==> opp.state is Detected
        &&& opp.ticks_valid > 1 ==> opp.state is Confirmed
        &&& opp.ticks_valid >= 1
    } by {
        assert(t.active[j].key() == after.active[j].key());
    }
    assert(added(start, after, next, n + 1));
}

/// An update follows from its start after a confirmed opportunity was estimated.
#[verifier::spinoff_prover]
#[verifier::rlimit(60)]
proof fn lemma_confirmed_follows(
    start: TrackerState,
    t: TrackerState,
    r: RunState,
    slot: u64,
    fill_prob_bits: u64,
)
    requires
        r.valid(t),
        stage_follows(start, t, r),
        start.wf(),
        r.stage == (Stage::Confirming { slot }),
    ensures
        step_follows(start, resumed(t, r, Event::Reestimated { fill_prob_bits })),
{
    lemma_confirmed_state(start, t, r, slot, fill_prob_bits);
    lemma_advance_follows(
        start,
        reestimated(t, slot as int, fill_prob_bits),
        RunState { next_signal: r.next_signal + 1, ..r },
    );
}

/// The tracker after a new opportunity was stored, before the next signal.
#[verifier::spinoff_prover]
#[verifier::rlimit(60)]
proof fn lemma_inserted_state(
    start: TrackerState,
    t: TrackerState,
    r: RunState,
    opp: TrackedOpportunity,
    id: i64,
)
    requires
        r.valid(t),
        stage_follows(start, t, r),
        start.wf(),
        r.stage == (Stage::Inserting { opp }),
        t.total_detected < u64::MAX,
    ensures
        ({
            let after = TrackerState {
                active: t.active.push(TrackedOpportunity { id, ..opp }),
                total_detected: (t.total_detected + 1) as u64,
                ..t
            };
            let next = RunState {
                next_signal: r.next_signal + 1,
                new_signals: r.new_signals.push(r.signals[r.next_signal]),
                ..r
            };
            &&& follows(start, after, next, 0, 0)
            &&& confirms(start, after, next, next.next_signal)
            &&& added(start, after, next, next.next_signal)
        }),
{
    let stored = TrackedOpportunity { id, ..opp };
    let after = TrackerState {
        active: t.active.push(stored),
        total_detected: (t.total_detected + 1) as u64,
        ..t
    };
    let next = RunState {
        next_signal: r.next_signal + 1,
        new_signals: r.new_signals.push(r.signals[r.next_signal]),
        ..r
    };
    let n = r.next_signal;
    let key = r.signals[n].key();
    lemma_slot_of(t.active, key, 0);
    assert(r.signals.take(n + 1).drop_last() =~= r.signals.take(n));
    assert(r.signals.take(n + 1).last() == r.signals[n]);
    if is_known(start.active, key) {
        let j = choose|j: int|
            0 <= j < start.active.len() && (#[trigger] start.active[j]).key() == key;
        assert(t.active[j].key() == key);
    }
    if reported(r.signals.take(n), key) {
        let i = choose|i: int|
            0 <= i < n && (#[trigger] r.signals.take(n)[i]).key() == key;
        assert(r.signals[i].key() == key);
        let j = choose|j: int|
            0 <= j < t.active.len() && (#[trigger] t.active[j]).key()
                == r.signals[i].key() && !(t.active[j].state is Slipped);
        assert(t.active[j].key() == key);
    }
    assert forall|i: int| 0 <= i < next.new_signals.len() implies (
    #[trigger] next.new_signals[i]).key() == after.active[start.active.len()
        + i].key() by {
        if i < r.new_signals.len() {
            assert(next.new_signals[i] == r.new_signals[i]);
            assert(r.new_signals[i].key() == t.active[start.active.len() + i].key());
        }
    }
    assert forall|j: int| 0 <= j < start.active.len() implies (
    #[trigger] after.active[j]).key() == start.active[j].key() by {
        assert(after.active[j] == t.active[j]);
    }
    assert(follows(start, after, next, 0, 0));
    assert forall|j: int|
        0 <= j < start.active.len() && reported(
            r.signals,
            start.active[j].key(),
        ) implies seen_again(
        #[trigger] after.active[j],
        start.active[j],
        r.signals.take(n + 1),
        r.snapshot.timestamp_ns,
    ) by {
        assert(after.active[j] == t.active[j]);
        assert(start.active[j].key() != key);
        lemma_one_more(
            t.active[j],
            start.active[j],
            r.signals,
            n,
            r.snapshot.timestamp_ns,
        );
    }
    assert(confirms(start, after, next, n + 1));
    lemma_seen(stored, r.signals.take(n), 0);
    lemma_one_more_mention(r.signals, n, key);
    assert forall|j: int| start.active.len() <= j < after.active.len() implies {
        let opp = #[trigger] after.active[j];
        &&& stands_for(
            opp,
            next.new_signals[j - start.active.len()],
            r.description,
            r.snapshot.timestamp_ns,
        )
        &&& opp.ticks_valid == mentions(r.signals.take(n + 1), opp.key())
        &&& opp.ticks_valid == 1 ==> opp.state is Detected
        &&& opp.ticks_valid > 1 ==> opp.state is Confirmed
        &&& opp.ticks_valid >= 1
    } by {
        if j < t.active.len() {
            assert(after.active[j] == t.active[j]);
            assert(t.active[j].key() != key);
            lemma_one_more_mention(r.signals, n, t.active[j].key());
            assert(next.new_signals[j - start.active.len()] == r.new_signals[j
                - start.active.len()]);
        }
    }
    assert(added(start, after, next, n + 1));
}

/// An update follows from its start after a new opportunity was stored.
#[verifier::spinoff_prover]
#[verifier::rlimit(60)]
proof fn lemma_inserted_follows(
    start: TrackerState,
    t: TrackerState,
    r: RunState,
    opp: TrackedOpportunity,
    id: i64,
)
    requires
        r.valid(t),
        stage_follows(start, t, r),
        start.wf(),
        r.stage == (Stage::Inserting { opp }),
    ensures
        step_follows(start, resumed(t, r, Event::Inserted { id })),
{
    if t.total_detected < u64::MAX {
        lemma_inserted_state(start, t, r, opp, id);
        lemma_advance_follows(
            start,
            TrackerState {
                active: t.active.push(TrackedOpportunity { id, ..opp }),
                total_detected: (t.total_detected + 1) as u64,
                ..t
            },
            RunState {
                next_signal: r.next_signal + 1,
                new_signals: r.new_signals.push(r.signals[r.next_signal]),
                ..r
            },
        );
    }
}

/// An update follows from its start after a slipped opportunity was estimated.
#[verifier::spinoff_prover]
#[verifier::rlimit(60)]
proof fn lemma_slipping_follows(
    start: TrackerState,
    t: TrackerState,
    r: RunState,
    slot: u64,
    fill_prob_bits: u64,
)
    requires
        r.valid(t),
        stage_follows(start, t, r),
        start.wf(),
        r.stage == (Stage::Slipping { slot }),
    ensures
        step_follows(start, resumed(t, r, Event::Reestimated { fill_prob_bits })),
{
    let after = resumed(t, r, Event::Reestimated { fill_prob_bits });
    assert(t.active[slot as int].key() == start.active[slot as int].key());
    assert forall|i: int| 0 <= i < r.new_signals.len() implies (
    #[trigger] r.new_signals[i]).key() == after.tracker.active[start.active.len()
        + i].key() by {
        assert(r.new_signals[i].key() == t.active[start.active.len() + i].key());
    }
    assert(follows(start, after.tracker, after.run, slot + 1, slot as int));
    assert(confirms(start, after.tracker, after.run, r.next_signal));
    assert(added(start, after.tracker, after.run, r.next_signal));
}

/// The tracker after a slipped opportunity was stored and counted.
#[verifier::spinoff_prover]
#[verifier::rlimit(60)]
proof fn lemma_stored_state(start: TrackerState, t: TrackerState, r: RunState, slot: u64)
    requires
        r.valid(t),
        stage_follows(start, t, r),
        start.wf(),
        r.stage == (Stage::Storing { slot }),
        t.total_slipped < u64::MAX,
    ensures
        ({
            let after = TrackerState { total_slipped: (t.total_slipped + 1) as u64, ..t };
            &&& follows(start, after, r, slot + 1, slot + 1)
            &&& confirms(start, after, r, r.next_signal)
            &&& added(start, after, r, r.next_signal)
        }),
{
    let after = TrackerState { total_slipped: (t.total_slipped + 1) as u64, ..t };
    assert(start.active.take(slot + 1).drop_last() =~= start.active.take(slot as int));
    assert(start.active.take(slot + 1).last() == start.active[slot as int]);
    assert(follows(start, after, r, slot + 1, slot + 1));
    assert(confirms(start, after, r, r.next_signal));
    assert(added(start, after, r, r.next_signal));
}

/// An update follows from its start after a slipped opportunity was stored.
#[verifier::spinoff_prover]
#[verifier::rlimit(60)]
proof fn lemma_stored_follows(
    start: TrackerState,
    t: TrackerState,
    r: RunState,
    slot: u64,
)
    requires
        r.valid(t),
        stage_follows(start, t, r),
        start.wf(),
        r.stage == (Stage::Storing { slot }),
    ensures
        step_follows(start, resumed(t, r, Event::Stored)),
{
    if t.total_slipped < u64::MAX {
        lemma_stored_state(start, t, r, slot);
        lemma_sweep_follows(
            start,
            TrackerState { total_slipped: (t.total_slipped + 1) as u64, ..t },
            r,
            slot + 1,
        );
    }
}

/// Every step of an update follows from its start.
#[verifier::spinoff_prover]
#[verifier::rlimit(60)]
proof fn lemma_step_follows(start: TrackerState, t: TrackerState, r: RunState, event: Event)
    requires
        r.valid(t),
        stage_follows(start, t, r),
        start.wf(),
    ensures
        step_follows(start, resumed(t, r, event)),
        resumed(t, r, event).run.snapshot == r.snapshot,
        resumed(t, r, event).run.description == r.description,
{
    match (r.stage, event) {
        (Stage::Evaluating, Event::Evaluated { signals, costs }) => {
            lemma_evaluated_follows(start, t, r, signals, costs);
        },
        (Stage::Confirming { slot }, Event::Reestimated { fill_prob_bits }) => {
            lemma_confirmed_follows(start, t, r, slot, fill_prob_bits);
        },
        (Stage::Inserting { opp }, Event::Inserted { id }) => {
            lemma_inserted_follows(start, t, r, opp, id);
        },
        (Stage::Slipping { slot }, Event::Reestimated { fill_prob_bits }) => {
            lemma_slipping_follows(start, t, r, slot, fill_prob_bits);
        },
        (Stage::Storing { slot }, Event::Stored) => {
            lemma_stored_follows(start, t, r, slot);
        },
        _ => {},
    }
}

/// Whatever is answered, an update follows from its start.
#[verifier::spinoff_prover]
#[verifier::rlimit(60)]
proof fn lemma_driven_follows(start: TrackerState, first: Step, events: Seq<Event>)
    requires
        start.wf(),
        first.run.valid(first.tracker),
        step_follows(start, first),
    ensures
        step_follows(start, driven(first, events)),
        driven(first, events).run.snapshot == first.run.snapshot,
        driven(first, events).run.description == first.run.description,
    decreases events.len(),
{
    if events.len() > 0 {
        let earlier = events.drop_last();
        let before = driven(first, earlier);
        lemma_driven_follows(start, first, earlier);
        any_update_keeps_the_tracker(first, earlier);
        lemma_step_follows(start, before.tracker, before.run, events.last());
    }
}

/// A run has heard its strategies, or is not that far yet, or ended early.
spec fn hearing(events: Seq<Event>, step: Step) -> bool {
    ||| step.run.stage is Sampling
    ||| step.run.stage is Evaluating
    ||| heard(events, step.run)
    ||| step.run.stage is Ended && !(step.action is Finished)
}

/// Whatever is answered, a run's signals and costs are what the strategies answered.
#[verifier::spinoff_prover]
#[verifier::rlimit(60)]
proof fn lemma_driven_heard(first: Step, events: Seq<Event>)
    requires
        !(first.action is Finished),
        first.run.stage is Sampling || first.run.stage is Evaluating || first.run.stage is Ended,
    ensures
        hearing(events, driven(first, events)),
    decreases events.len(),
{
    if events.len() > 0 {
        let earlier = events.drop_last();
        let before = driven(first, earlier);
        let after = driven(first, events);
        lemma_driven_heard(first, earlier);
        if heard(earlier, before.run) && !(before.run.stage is Sampling
            || before.run.stage is Evaluating) {
            let i = choose|i: int|
                0 <= i < earlier.len() && ((#[trigger] earlier[i]) matches Event::Evaluated {
                    signals,
                    costs,
                } && signals@ == before.run.signals && costs == before.run.costs);
            assert(events[i] == earlier[i]);
            assert(after.run.signals == before.run.signals && after.run.costs == before.run.costs);
            assert(heard(events, after.run));
        } else if before.run.stage is Evaluating && events.last() is Evaluated {
            assert(events[events.len() - 1] == events.last());
            assert(heard(events, after.run));
        }
    }
}

/// An update follows from its start when it begins.
#[verifier::spinoff_prover]
#[verifier::rlimit(60)]
proof fn lemma_begin_follows(
    t: TrackerState,
    snapshot: MarketSnapshot,
    has_all_prices: bool,
    description: String,
    now_ns: u64,
)
    requires
        t.wf(),
    ensures
        step_follows(t, begin(t, snapshot, has_all_prices, description, now_ns)),
        begin(t, snapshot, has_all_prices, description, now_ns).run.valid(t),
{
    let first = begin(t, snapshot, has_all_prices, description, now_ns);
    assert(first.run.new_signals.len() == 0);
}

/// A finished update: where it began, and where it led.
proof fn lemma_finished(
    t: TrackerState,
    snapshot: MarketSnapshot,
    has_all_prices: bool,
    description: String,
    now_ns: u64,
    events: Seq<Event>,
)
    requires
        t.wf(),
        driven(
            begin(t, snapshot, has_all_prices, description, now_ns),
            events,
        ).action is Finished,
    ensures
        ({
            let last = driven(begin(t, snapshot, has_all_prices, description, now_ns), events);
            &&& complete(t, last.tracker, last.run)
            &&& last.tracker.wf()
            &&& last.run.snapshot == (MarketSnapshot { timestamp_ns: now_ns, ..snapshot })
            &&& last.run.description == description
            &&& heard(events, last.run)
        }),
{
    let first = begin(t, snapshot, has_all_prices, description, now_ns);
    let last = driven(first, events);
    lemma_begin_follows(t, snapshot, has_all_prices, description, now_ns);
    lemma_driven_follows(t, first, events);
    lemma_driven_heard(first, events);
    any_update_keeps_the_tracker(first, events);
    if last.run.stage is Sampling || last.run.stage is Evaluating {
        let before = driven(first, events.drop_last());
        assert(last == resumed(before.tracker, before.run, events.last()));
    }
}

/// A finished update reports as new the first signal of each opportunity that was not
/// tracked before, in the order of what the strategies answered, and counts as many
/// detections.
pub proof fn finished_update_reports_what_is_new(
    t: TrackerState,
    snapshot: MarketSnapshot,
    has_all_prices: bool,
    description: String,
    now_ns: u64,
    events: Seq<Event>,
)
    requires
        t.wf(),
        driven(
            begin(t, snapshot, has_all_prices, description, now_ns),
            events,
        ).action is Finished,
    ensures
        ({
            let last = driven(begin(t, snapshot, has_all_prices, description, now_ns), events);
            &&& heard(events, last.run)
            &&& last.run.new_signals == first_reports(last.run.signals, t.active)
            &&& last.tracker.active.len() == t.active.len() + last.run.new_signals.len()
            &&& last.tracker.total_detected == t.total_detected + last.run.new_signals.len()
        }),
{
    lemma_finished(t, snapshot, has_all_prices, description, now_ns, events);
    let last = driven(begin(t, snapshot, has_all_prices, description, now_ns), events);
    assert(last.run.signals.take(last.run.next_signal) =~= last.run.signals);
}

/// A finished update slips each opportunity that it found gone, at the cost of its
/// own kind, and counts as many slips. What it neither found gone nor heard a signal
/// of is as it was.
pub proof fn finished_update_slips_what_is_gone(
    t: TrackerState,
    snapshot: MarketSnapshot,
    has_all_prices: bool,
    description: String,
    now_ns: u64,
    events: Seq<Event>,
)
    requires
        t.wf(),
        driven(
            begin(t, snapshot, has_all_prices, description, now_ns),
            events,
        ).action is Finished,
    ensures
        ({
            let last = driven(begin(t, snapshot, has_all_prices, description, now_ns), events);
            &&& heard(events, last.run)
            &&& last.tracker.total_slipped == t.total_slipped + gone_count(
                t.active,
                snapshot.market_id,
                last.run.signals,
            )
            &&& forall|j: int|
                0 <= j < t.active.len() && gone(
                    t.active[j],
                    snapshot.market_id,
                    last.run.signals,
                ) ==> slipped_at_its_cost(
                    #[trigger] last.tracker.active[j],
                    t.active[j],
                    last.run.costs,
                    now_ns,
                )
            &&& forall|j: int|
                0 <= j < t.active.len() && !gone(
                    t.active[j],
                    snapshot.market_id,
                    last.run.signals,
                ) && !reported(last.run.signals, t.active[j].key())
                    ==> #[trigger] last.tracker.active[j] == t.active[j]
        }),
{
    lemma_finished(t, snapshot, has_all_prices, description, now_ns, events);
    assert(t.active.take(t.active.len() as int) =~= t.active);
}

/// Whether the costs seen are those of before and those of the signals that report an
/// opportunity: the worst is the highest of them, and the best the lowest.
pub open spec fn spans(
    after: TrackedOpportunity,
    before: TrackedOpportunity,
    signals: Seq<StrategySignal>,
) -> bool {
    &&& after.worst_cost_seen >= before.worst_cost_seen
    &&& after.best_cost_seen <= before.best_cost_seen
    &&& forall|k: int|
        0 <= k < signals.len() && (#[trigger] signals[k]).key() == before.key()
            ==> after.best_cost_seen <= signals[k].cost_cents <= after.worst_cost_seen
    &&& after.worst_cost_seen == before.worst_cost_seen || exists|k: int|
        0 <= k < signals.len() && (#[trigger] signals[k]).key() == before.key()
            && signals[k].cost_cents == after.worst_cost_seen
    &&& after.best_cost_seen == before.best_cost_seen || exists|k: int|
        0 <= k < signals.len() && (#[trigger] signals[k]).key() == before.key()
            && signals[k].cost_cents == after.best_cost_seen
}

/// One more signal widens the costs seen where it reports the opportunity.
proof fn lemma_spans_more(
    after: TrackedOpportunity,
    mid: TrackedOpportunity,
    opp: TrackedOpportunity,
    signals: Seq<StrategySignal>,
)
    requires
        signals.len() > 0,
        spans(mid, opp, signals.drop_last()),
        signals.last().key() != opp.key() ==> after == mid,
        signals.last().key() == opp.key() ==> {
            let c = signals.last().cost_cents;
            &&& after.worst_cost_seen == if c > mid.worst_cost_seen { c } else { mid.worst_cost_seen }
            &&& after.best_cost_seen == if c < mid.best_cost_seen { c } else { mid.best_cost_seen }
        },
    ensures
        spans(after, opp, signals),
{
    let earlier = signals.drop_last();
    assert forall|k: int|
        0 <= k < signals.len() && (#[trigger] signals[k]).key()
            == opp.key() implies after.best_cost_seen <= signals[k].cost_cents
        <= after.worst_cost_seen by {
        if k < earlier.len() {
            assert(earlier[k].key() == opp.key());
        }
    }
    assert(signals[signals.len() - 1] == signals.last());
    if mid.worst_cost_seen != opp.worst_cost_seen {
        let k = choose|k: int|
            0 <= k < earlier.len() && (#[trigger] earlier[k]).key() == opp.key()
                && earlier[k].cost_cents == mid.worst_cost_seen;
        assert(signals[k].key() == opp.key());
    }
    if mid.best_cost_seen != opp.best_cost_seen {
        let k = choose|k: int|
            0 <= k < earlier.len() && (#[trigger] earlier[k]).key() == opp.key()
                && earlier[k].cost_cents == mid.best_cost_seen;
        assert(signals[k].key() == opp.key());
    }
}

/// What signals do to an opportunity that they report: it is confirmed at their moment,
/// and neither its detection nor what an earlier slip left of it changes.
proof fn lemma_seen(opp: TrackedOpportunity, signals: Seq<StrategySignal>, now_ns: u64)
    ensures
        mentions(signals, opp.key()) > 0 <==> reported(signals, opp.key()),
        mentions(signals, opp.key()) > 0 ==> {
            &&& seen(opp, signals, now_ns).state is Confirmed
            &&& seen(opp, signals, now_ns).last_seen_ns == now_ns
        },
        mentions(signals, opp.key()) > 0 ==> {
            &&& now_ns >= opp.detected_at_ns ==> seen(opp, signals, now_ns).duration_ns == now_ns
                - opp.detected_at_ns
            &&& now_ns < opp.detected_at_ns ==> seen(opp, signals, now_ns).duration_ns == 0
        },
        spans(seen(opp, signals, now_ns), opp, signals),
        seen(opp, signals, now_ns).same_detection(opp),
        seen(opp, signals, now_ns).final_cost == opp.final_cost,
        seen(opp, signals, now_ns).estimated_slippage == opp.estimated_slippage,
        seen(opp, signals, now_ns).adjusted_profit == opp.adjusted_profit,
    decreases signals.len(),
{
    if signals.len() > 0 {
        let earlier = signals.drop_last();
        lemma_seen(opp, earlier, now_ns);
        lemma_spans_more(
            seen(opp, signals, now_ns),
            seen(opp, earlier, now_ns),
            opp,
            signals,
        );
        if reported(earlier, opp.key()) {
            let k = choose|k: int|
                0 <= k < earlier.len() && (#[trigger] earlier[k]).key() == opp.key();
            assert(signals[k].key() == opp.key());
        }
        if signals.last().key() == opp.key() {
            assert(signals[signals.len() - 1].key() == opp.key());
        } else if reported(signals, opp.key()) {
            let k = choose|k: int|
                0 <= k < signals.len() && (#[trigger] signals[k]).key() == opp.key();
            assert(earlier[k].key() == opp.key());
        }
    }
}

/// A finished update confirms each opportunity that was known and is reported, once
/// for each signal of it. Its detection, its slippage, its adjusted profit and its
/// final cost stay.
pub proof fn finished_update_confirms_what_is_seen_again(
    t: TrackerState,
    snapshot: MarketSnapshot,
    has_all_prices: bool,
    description: String,
    now_ns: u64,
    events: Seq<Event>,
    j: int,
)
    requires
        t.wf(),
        driven(
            begin(t, snapshot, has_all_prices, description, now_ns),
            events,
        ).action is Finished,
        0 <= j < t.active.len(),
        reported(
            driven(
                begin(t, snapshot, has_all_prices, description, now_ns),
                events,
            ).run.signals,
            t.active[j].key(),
        ),
    ensures
        ({
            let last = driven(begin(t, snapshot, has_all_prices, description, now_ns), events);
            let before = t.active[j];
            let after = last.tracker.active[j];
            &&& heard(events, last.run)
            &&& seen_again(after, before, last.run.signals, now_ns)
            &&& after.state is Confirmed
            &&& after.ticks_valid == before.ticks_valid + mentions(last.run.signals, before.key())
            &&& after.ticks_valid > before.ticks_valid
            &&& after.last_seen_ns == now_ns
            &&& now_ns >= before.detected_at_ns ==> after.duration_ns == now_ns
                - before.detected_at_ns
            &&& spans(after, before, last.run.signals)
            &&& after.same_detection(before)
            &&& after.final_cost == before.final_cost
            &&& after.estimated_slippage == before.estimated_slippage
            &&& after.adjusted_profit == before.adjusted_profit
        }),
{
    lemma_finished(t, snapshot, has_all_prices, description, now_ns, events);
    let last = driven(begin(t, snapshot, has_all_prices, description, now_ns), events);
    assert(last.run.signals.take(last.run.next_signal) =~= last.run.signals);
    assert(seen_again(last.tracker.active[j], t.active[j], last.run.signals, now_ns));
    lemma_seen(t.active[j], last.run.signals, now_ns);
}

/// Once the strategies were heard, the signals of a run stay.
proof fn lemma_signals_stay(first: Step, events: Seq<Event>, n: int)
    requires
        0 <= n <= events.len(),
        !(driven(first, events.take(n)).run.stage is Sampling),
        !(driven(first, events.take(n)).run.stage is Evaluating),
    ensures
        driven(first, events).run.signals == driven(first, events.take(n)).run.signals,
        !(driven(first, events).run.stage is Sampling),
        !(driven(first, events).run.stage is Evaluating),
    decreases events.len(),
{
    if n == events.len() {
        assert(events.take(n) =~= events);
    } else {
        assert(events.drop_last().take(n) =~= events.take(n));
        lemma_signals_stay(first, events.drop_last(), n);
    }
}

/// In a finished update, no action stores an opportunity over its record that one of
/// the signals reports: only what is gone is stored again.
pub proof fn finished_update_stores_again_only_what_is_gone(
    t: TrackerState,
    snapshot: MarketSnapshot,
    has_all_prices: bool,
    description: String,
    now_ns: u64,
    events: Seq<Event>,
    n: int,
)
    requires
        t.wf(),
        driven(
            begin(t, snapshot, has_all_prices, description, now_ns),
            events,
        ).action is Finished,
        0 <= n <= events.len(),
    ensures
        ({
            let first = begin(t, snapshot, has_all_prices, description, now_ns);
            driven(first, events.take(n)).action matches Action::UpdateOpportunity { opp }
                ==> !reported(driven(first, events).run.signals, opp.key())
        }),
{
    let first = begin(t, snapshot, has_all_prices, description, now_ns);
    let step = driven(first, events.take(n));
    lemma_begin_follows(t, snapshot, has_all_prices, description, now_ns);
    lemma_driven_follows(t, first, events.take(n));
    if step.action is UpdateOpportunity {
        if n > 0 {
            let before = driven(first, events.take(n).drop_last());
            assert(step == resumed(before.tracker, before.run, events.take(n).last()));
        }
        lemma_signals_stay(first, events, n);
    }
}

/// A price update, with what came of its actions.
pub struct Update {
    pub snapshot: MarketSnapshot,
    pub has_all_prices: bool,
    pub description: String,
    pub now_ns: u64,
    pub events: Seq<Event>,
}

/// Where an update leads.
pub open spec fn outcome(t: TrackerState, update: Update) -> Step {
    driven(
        begin(t, update.snapshot, update.has_all_prices, update.description, update.now_ns),
        update.events,
    )
}

/// The tracker after a sequence of updates.
pub open spec fn after_updates(t: TrackerState, updates: Seq<Update>) -> TrackerState
    decreases updates.len(),
{
    if updates.len() == 0 {
        t
    } else {
        outcome(after_updates(t, updates.drop_last()), updates.last()).tracker
    }
}

/// Whether every one of a sequence of updates is finished.
pub open spec fn all_finished(t: TrackerState, updates: Seq<Update>) -> bool
    decreases updates.len(),
{
    updates.len() > 0 ==> {
        &&& all_finished(t, updates.drop_last())
        &&& outcome(after_updates(t, updates.drop_last()), updates.last()).action is Finished
    }
}

/// All signals of a sequence of updates, in order.
pub open spec fn signalled(t: TrackerState, updates: Seq<Update>) -> Seq<StrategySignal>
    decreases updates.len(),
{
    if updates.len() == 0 {
        Seq::empty()
    } else {
        signalled(t, updates.drop_last()) + outcome(
            after_updates(t, updates.drop_last()),
            updates.last(),
        ).run.signals
    }
}

/// All signals that a sequence of updates reports as new, in order.
pub open spec fn returned(t: TrackerState, updates: Seq<Update>) -> Seq<StrategySignal>
    decreases updates.len(),
{
    if updates.len() == 0 {
        Seq::empty()
    } else {
        returned(t, updates.drop_last()) + outcome(
            after_updates(t, updates.drop_last()),
            updates.last(),
        ).run.new_signals
    }
}

/// The opportunities that signals report, in order.
pub open spec fn keys_of(signals: Seq<StrategySignal>) -> Seq<OpportunityKey> {
    Seq::new(signals.len(), |i: int| signals[i].key())
}

/// What is reported by one of two lists of signals is reported by both together, and
/// nothing else is.
proof fn lemma_reported_by_both(
    a: Seq<StrategySignal>,
    b: Seq<StrategySignal>,
    key: OpportunityKey,
)
    ensures
        reported(a + b, key) <==> reported(a, key) || reported(b, key),
{
    if reported(a, key) {
        let i = choose|i: int| 0 <= i < a.len() && (#[trigger] a[i]).key() == key;
        assert((a + b)[i].key() == key);
    }
    if reported(b, key) {
        let i = choose|i: int| 0 <= i < b.len() && (#[trigger] b[i]).key() == key;
        assert((a + b)[a.len() + i].key() == key);
    }
    if reported(a + b, key) {
        let i = choose|i: int| 0 <= i < (a + b).len() && (#[trigger] (a + b)[i]).key() == key;
        if i < a.len() {
            assert(a[i].key() == key);
        } else {
            assert(b[i - a.len()].key() == key);
        }
    }
}

/// First reports can be taken list by list, where what the first list reports is known
/// to the second.
proof fn lemma_first_reports_add(
    a: Seq<StrategySignal>,
    b: Seq<StrategySignal>,
    active: Seq<TrackedOpportunity>,
    later: Seq<TrackedOpportunity>,
)
    requires
        forall|key: OpportunityKey| #[trigger]
            is_known(later, key) <==> is_known(active, key) || reported(a, key),
    ensures
        first_reports(a + b, active) == first_reports(a, active) + first_reports(b, later),
    decreases b.len(),
{
    if b.len() == 0 {
        assert(a + b =~= a);
        assert(first_reports(a, active) + first_reports(b, later) =~= first_reports(a, active));
    } else {
        let signal = b.last();
        assert((a + b).drop_last() =~= a + b.drop_last());
        assert((a + b).last() == signal);
        lemma_first_reports_add(a, b.drop_last(), active, later);
        lemma_reported_by_both(a, b.drop_last(), signal.key());
        assert(is_known(later, signal.key()) <==> is_known(active, signal.key()) || reported(
            a,
            signal.key(),
        ));
        let front = first_reports(a, active);
        let back = first_reports(b.drop_last(), later);
        assert((front + back).push(signal) =~= front + back.push(signal));
    }
}

/// What a finished update knows: what was known before, and what its signals report.
proof fn lemma_known_after(t: TrackerState, update: Update, key: OpportunityKey)
    requires
        t.wf(),
        outcome(t, update).action is Finished,
    ensures
        is_known(outcome(t, update).tracker.active, key) <==> is_known(t.active, key) || reported(
            outcome(t, update).run.signals,
            key,
        ),
{
    lemma_finished(
        t,
        update.snapshot,
        update.has_all_prices,
        update.description,
        update.now_ns,
        update.events,
    );
    let last = outcome(t, update);
    let after = last.tracker.active;
    assert(last.run.signals.take(last.run.next_signal) =~= last.run.signals);
    if is_known(after, key) {
        let j = choose|j: int| 0 <= j < after.len() && (#[trigger] after[j]).key() == key;
        if j < t.active.len() {
            assert(t.active[j].key() == key);
        } else {
            lemma_added_is_reported(t, last.tracker, last.run, j);
        }
    }
    if is_known(t.active, key) {
        let j = choose|j: int| 0 <= j < t.active.len() && (#[trigger] t.active[j]).key() == key;
        assert(after[j].key() == key);
    } else if reported(last.run.signals, key) {
        first_reports_list_each_once(last.run.signals, t.active);
        let k = choose|k: int|
            0 <= k < last.run.signals.len() && (#[trigger] last.run.signals[k]).key() == key;
        assert(reported(last.run.new_signals, last.run.signals[k].key()));
        let i = choose|i: int|
            0 <= i < last.run.new_signals.len() && (#[trigger] last.run.new_signals[i]).key()
                == key;
        assert(after[t.active.len() + i].key() == key);
    }
}

/// What a sequence of finished updates reports as new and knows in the end.
proof fn lemma_updates(t: TrackerState, updates: Seq<Update>)
    requires
        t.wf(),
        all_finished(t, updates),
    ensures
        after_updates(t, updates).wf(),
        returned(t, updates) == first_reports(signalled(t, updates), t.active),
        after_updates(t, updates).total_detected == t.total_detected + returned(t, updates).len(),
        forall|key: OpportunityKey| #[trigger]
            is_known(after_updates(t, updates).active, key) <==> is_known(t.active, key)
                || reported(signalled(t, updates), key),
    decreases updates.len(),
{
    if updates.len() > 0 {
        let earlier = updates.drop_last();
        let update = updates.last();
        let before = after_updates(t, earlier);
        lemma_updates(t, earlier);
        lemma_finished(
            before,
            update.snapshot,
            update.has_all_prices,
            update.description,
            update.now_ns,
            update.events,
        );
        finished_update_reports_what_is_new(
            before,
            update.snapshot,
            update.has_all_prices,
            update.description,
            update.now_ns,
            update.events,
        );
        let signals = outcome(before, update).run.signals;
        lemma_first_reports_add(signalled(t, earlier), signals, t.active, before.active);
        assert forall|key: OpportunityKey| #[trigger]
            is_known(after_updates(t, updates).active, key) <==> is_known(t.active, key)
                || reported(signalled(t, updates), key) by {
            lemma_known_after(before, update, key);
            lemma_reported_by_both(signalled(t, earlier), signals, key);
            assert(is_known(before.active, key) <==> is_known(t.active, key) || reported(
                signalled(t, earlier),
                key,
            ));
        }
    }
}

/// Over any sequence of finished updates, what they report as new is the first signal
/// of each opportunity that was not tracked at the start, in order; no opportunity is
/// reported as new twice, and as many detections are counted.
pub proof fn no_opportunity_is_new_twice(t: TrackerState, updates: Seq<Update>)
    requires
        t.wf(),
        all_finished(t, updates),
    ensures
        after_updates(t, updates).wf(),
        returned(t, updates) == first_reports(signalled(t, updates), t.active),
        keys_of(returned(t, updates)).no_duplicates(),
        after_updates(t, updates).total_detected == t.total_detected + returned(t, updates).len(),
{
    lemma_updates(t, updates);
    first_reports_list_each_once(signalled(t, updates), t.active);
    let new = returned(t, updates);
    assert forall|i: int, j: int| 0 <= i < new.len() && 0 <= j < new.len() && i != j implies keys_of(
        new,
    )[i] != keys_of(new)[j] by {
        if i < j {
            assert(new[i].key() != new[j].key());
        } else {
            assert(new[j].key() != new[i].key());
        }
    }
}

/// A tracker that started with nothing counts as detected the different opportunities
/// that were signalled in finished updates.
pub proof fn detections_are_the_different_opportunities(t: TrackerState, updates: Seq<Update>)
    requires
        t.wf(),
        t.active.len() == 0,
        all_finished(t, updates),
    ensures
        after_updates(t, updates).total_detected == keys_of(signalled(t, updates)).to_set().len(),
        keys_of(returned(t, updates)).to_set() == keys_of(signalled(t, updates)).to_set(),
{
    no_opportunity_is_new_twice(t, updates);
    let all = signalled(t, updates);
    let new = returned(t, updates);
    first_reports_list_each_once(all, t.active);
    keys_of(new).unique_seq_to_set();
    assert forall|key: OpportunityKey|
        keys_of(new).to_set().contains(key) <==> keys_of(all).to_set().contains(key) by {
        if keys_of(new).contains(key) {
            let i = choose|i: int| 0 <= i < new.len() && keys_of(new)[i] == key;
            assert(reported(all, new[i].key()));
            let k = choose|k: int| 0 <= k < all.len() && (#[trigger] all[k]).key() == key;
            assert(keys_of(all)[k] == key);
        }
        if keys_of(all).contains(key) {
            let k = choose|k: int| 0 <= k < all.len() && keys_of(all)[k] == key;
            assert(all[k].key() == key);
            assert(reported(new, all[k].key()));
            let i = choose|i: int| 0 <= i < new.len() && (#[trigger] new[i]).key() == key;
            assert(keys_of(new)[i] == key);
        }
    }
    assert(keys_of(new).to_set() =~= keys_of(all).to_set());
}

/// The step of the end of a session that a sequence of events leads to, one after the
/// other.
pub open spec fn driven_to_the_end(first: FinalStep, events: Seq<Event>) -> FinalStep
    decreases events.len(),
{
    if events.len() == 0 {
        first
    } else {
        let before = driven_to_the_end(first, events.drop_last());
        final_resumed(before.tracker, before.run, events.last())
    }
}

/// What the end of a session makes of an opportunity: it stays as it is where it has
/// slipped, and is closed where it has not.
pub open spec fn ended(opp: TrackedOpportunity, now_ns: u64) -> TrackedOpportunity {
    if opp.state is Slipped {
        opp
    } else {
        opp.closed(now_ns)
    }
}

/// What holds when the slots before `done` were closed: those are as they end, the
/// others as they were, and nothing but the opportunities has changed.
spec fn ended_before(start: TrackerState, t: TrackerState, now_ns: u64, done: int) -> bool {
    &&& t == (TrackerState { active: t.active, ..start })
    &&& t.active.len() == start.active.len()
    &&& forall|j: int|
        0 <= j < start.active.len() ==> #[trigger] t.active[j] == if j < done {
            ended(start.active[j], now_ns)
        } else {
            start.active[j]
        }
}

/// What holds at each stage of the end of a session.
spec fn final_follows(start: TrackerState, step: FinalStep, now_ns: u64) -> bool {
    &&& step.run.now_ns == now_ns
    &&& exists|done: int|
        0 <= done <= start.active.len() && #[trigger] ended_before(
            start,
            step.tracker,
            now_ns,
            done,
        )
    &&& match step.run.stage {
        FinalStage::Closing { slot } => slot < start.active.len() && ended_before(
            start,
            step.tracker,
            now_ns,
            slot + 1,
        ),
        FinalStage::Totalling => ended_before(
            start,
            step.tracker,
            now_ns,
            start.active.len() as int,
        ),
        FinalStage::Ended => true,
    }
    &&& step.action is Finished ==> ended_before(
        start,
        step.tracker,
        now_ns,
        start.active.len() as int,
    )
}

/// Closing the next opportunity follows from the start.
#[verifier::spinoff_prover]
#[verifier::rlimit(60)]
proof fn lemma_close_follows(start: TrackerState, t: TrackerState, r: FinalRunState, from: int)
    requires
        0 <= from <= start.active.len(),
        start.active.len() <= u64::MAX,
        ended_before(start, t, r.now_ns, from),
    ensures
        final_follows(start, close_next(t, r, from), r.now_ns),
{
    lemma_open_slot(t.active, from);
    let slot = open_slot(t.active, from);
    let after = close_next(t, r, from);
    let done = if slot < t.active.len() {
        slot + 1
    } else {
        slot
    };
    assert forall|j: int| 0 <= j < start.active.len() implies #[trigger] after.tracker.active[j]
        == if j < done {
        ended(start.active[j], r.now_ns)
    } else {
        start.active[j]
    } by {
        if from <= j < slot {
            assert(t.active[j].state is Slipped);
        }
    }
    assert(ended_before(start, after.tracker, r.now_ns, done));
}

/// However the end of a session goes, it leaves alone what has slipped and the
/// counters, and of each other opportunity makes nothing or closes it. Where it is
/// finished, every opportunity that had not slipped is closed at its moment.
pub proof fn finalizing_closes_what_has_not_slipped(
    t: TrackerState,
    now_ns: u64,
    events: Seq<Event>,
)
    requires
        t.wf(),
    ensures
        ({
            let first = close_next(t, FinalRunState { now_ns, stage: FinalStage::Ended }, 0);
            let last = driven_to_the_end(first, events);
            &&& last.tracker == (TrackerState { active: last.tracker.active, ..t })
            &&& last.tracker.active.len() == t.active.len()
            &&& forall|j: int|
                0 <= j < t.active.len() ==> #[trigger] last.tracker.active[j] == t.active[j]
                    || last.tracker.active[j] == ended(t.active[j], now_ns)
            &&& last.action is Finished ==> forall|j: int|
                0 <= j < t.active.len() ==> #[trigger] last.tracker.active[j] == ended(
                    t.active[j],
                    now_ns,
                )
        }),
{
    lemma_final_follows(t, now_ns, events);
}

/// The end of a session follows from its start.
#[verifier::spinoff_prover]
#[verifier::rlimit(60)]
proof fn lemma_final_follows(t: TrackerState, now_ns: u64, events: Seq<Event>)
    requires
        t.wf(),
    ensures
        final_follows(
            t,
            driven_to_the_end(
                close_next(t, FinalRunState { now_ns, stage: FinalStage::Ended }, 0),
                events,
            ),
            now_ns,
        ),
    decreases events.len(),
{
    let idle = FinalRunState { now_ns, stage: FinalStage::Ended };
    let first = close_next(t, idle, 0);
    if events.len() == 0 {
        assert(ended_before(t, t, now_ns, 0));
        lemma_close_follows(t, t, idle, 0);
    } else {
        lemma_final_follows(t, now_ns, events.drop_last());
        let before = driven_to_the_end(first, events.drop_last());
        match (before.run.stage, events.last()) {
            (FinalStage::Closing { slot }, Event::Stored) => {
                lemma_close_follows(t, before.tracker, before.run, slot + 1);
            },
            _ => {
                let done = choose|done: int|
                    0 <= done <= t.active.len() && #[trigger] ended_before(
                        t,
                        before.tracker,
                        now_ns,
                        done,
                    );
                let after = driven_to_the_end(first, events);
                assert(after.tracker == before.tracker);
                assert(ended_before(t, after.tracker, now_ns, done));
            },
        }
    }
}

/// A finished update keeps a record for each signal that it reports as new, with what
/// the signal says: its cost, prices and sizes, and its profit as both the detected and
/// the adjusted one. Nothing is lost yet. It was seen as often as the update's signals
/// report it.
pub proof fn finished_update_keeps_what_its_signals_say(
    t: TrackerState,
    snapshot: MarketSnapshot,
    has_all_prices: bool,
    description: String,
    now_ns: u64,
    events: Seq<Event>,
    i: int,
)
    requires
        t.wf(),
        driven(
            begin(t, snapshot, has_all_prices, description, now_ns),
            events,
        ).action is Finished,
        0 <= i < driven(
            begin(t, snapshot, has_all_prices, description, now_ns),
            events,
        ).run.new_signals.len(),
    ensures
        ({
            let last = driven(begin(t, snapshot, has_all_prices, description, now_ns), events);
            let signal = last.run.new_signals[i];
            let opp = last.tracker.active[t.active.len() + i];
            &&& stands_for(opp, signal, description, now_ns)
            &&& opp.detected_profit == signal.profit_cents
            &&& opp.adjusted_profit == signal.profit_cents
            &&& opp.estimated_slippage == 0
            &&& opp.detected_cost == signal.cost_cents
            &&& opp.detected_yes_price == signal.yes_price
            &&& opp.detected_no_price == signal.no_price
            &&& opp.detected_yes_size == signal.yes_size
            &&& opp.detected_no_size == signal.no_size
            &&& opp.ticks_valid == mentions(last.run.signals, signal.key())
            &&& opp.ticks_valid == 1 ==> opp.state is Detected
            &&& opp.ticks_valid != 1 ==> opp.state is Confirmed
        }),
{
    lemma_finished(t, snapshot, has_all_prices, description, now_ns, events);
    let last = driven(begin(t, snapshot, has_all_prices, description, now_ns), events);
    assert(last.run.signals.take(last.run.next_signal) =~= last.run.signals);
    let opp = last.tracker.active[t.active.len() + i];
    assert(stands_for(opp, last.run.new_signals[i], description, now_ns));
    assert(last.run.new_signals[i].key() == opp.key());
}

/// Whether no signal is of the opportunity that a record is of.
pub open spec fn unheard(signals: Seq<StrategySignal>, opp: TrackedOpportunity) -> bool {
    forall|k: int|
        0 <= k < signals.len() ==> !((#[trigger] signals[k]).strategy_id@ == opp.strategy_id@
            && signals[k].market_id == opp.market_id && signals[k].arb_type == opp.arb_type)
}

/// No signal is of an opportunity exactly where none reports it.
proof fn lemma_unheard(signals: Seq<StrategySignal>, opp: TrackedOpportunity)
    ensures
        unheard(signals, opp) <==> !reported(signals, opp.key()),
{
    if reported(signals, opp.key()) {
        let k = choose|k: int| 0 <= k < signals.len() && (#[trigger] signals[k]).key() == opp.key();
        assert(signals[k].strategy_id@ == opp.strategy_id@);
    }
    if !unheard(signals, opp) {
        let k = choose|k: int|
            0 <= k < signals.len() && (#[trigger] signals[k]).strategy_id@ == opp.strategy_id@
                && signals[k].market_id == opp.market_id && signals[k].arb_type == opp.arb_type;
        assert(signals[k].key() == opp.key());
    }
}

/// A finished update finds gone what is in its market, had not slipped, and is in none
/// of its signals. That slips at the cost that its two legs have now: what the cost rose
/// by is taken from the profit. Sightings and detection stay.
pub proof fn finished_update_charges_what_the_cost_rose_by(
    t: TrackerState,
    snapshot: MarketSnapshot,
    has_all_prices: bool,
    description: String,
    now_ns: u64,
    events: Seq<Event>,
    j: int,
)
    requires
        t.wf(),
        driven(
            begin(t, snapshot, has_all_prices, description, now_ns),
            events,
        ).action is Finished,
        0 <= j < t.active.len(),
        t.active[j].market_id == snapshot.market_id,
        !(t.active[j].state is Slipped),
        unheard(
            driven(
                begin(t, snapshot, has_all_prices, description, now_ns),
                events,
            ).run.signals,
            t.active[j],
        ),
    ensures
        ({
            let last = driven(begin(t, snapshot, has_all_prices, description, now_ns), events);
            let before = t.active[j];
            let after = last.tracker.active[j];
            let cost = match before.arb_type {
                ArbType::PolyYesKalshiNo => last.run.costs.poly_yes_kalshi_no,
                ArbType::KalshiYesPolyNo => last.run.costs.kalshi_yes_poly_no,
                ArbType::PolyOnly => last.run.costs.poly_only,
                ArbType::KalshiOnly => last.run.costs.kalshi_only,
            };
            &&& heard(events, last.run)
            &&& after.state is Slipped
            &&& after.final_cost == Some(cost)
            &&& now_ns >= before.detected_at_ns ==> after.duration_ns == now_ns
                - before.detected_at_ns
            &&& cost < 0x8000 && before.detected_cost < 0x8000 ==> after.estimated_slippage == cost
                - before.detected_cost
            &&& after.estimated_slippage > 0 ==> after.adjusted_profit == before.detected_profit
                - after.estimated_slippage
            &&& after.estimated_slippage <= 0 ==> after.adjusted_profit == before.detected_profit
            &&& after.same_detection(before)
            &&& after.ticks_valid == before.ticks_valid
            &&& after.last_seen_ns == before.last_seen_ns
            &&& after.worst_cost_seen == before.worst_cost_seen
            &&& after.best_cost_seen == before.best_cost_seen
        }),
{
    finished_update_slips_what_is_gone(t, snapshot, has_all_prices, description, now_ns, events);
    let last = driven(begin(t, snapshot, has_all_prices, description, now_ns), events);
    lemma_unheard(last.run.signals, t.active[j]);
    assert(gone(t.active[j], snapshot.market_id, last.run.signals));
    assert(slipped_at_its_cost(last.tracker.active[j], t.active[j], last.run.costs, now_ns));
}

/// A finished update leaves a record as it was where no signal is of it and it had
/// slipped before, or is in another market.
pub proof fn finished_update_leaves_the_rest(
    t: TrackerState,
    snapshot: MarketSnapshot,
    has_all_prices: bool,
    description: String,
    now_ns: u64,
    events: Seq<Event>,
    j: int,
)
    requires
        t.wf(),
        driven(
            begin(t, snapshot, has_all_prices, description, now_ns),
            events,
        ).action is Finished,
        0 <= j < t.active.len(),
        t.active[j].market_id != snapshot.market_id || t.active[j].state is Slipped,
        unheard(
            driven(
                begin(t, snapshot, has_all_prices, description, now_ns),
                events,
            ).run.signals,
            t.active[j],
        ),
    ensures
        driven(
            begin(t, snapshot, has_all_prices, description, now_ns),
            events,
        ).tracker.active[j] == t.active[j],
{
    finished_update_slips_what_is_gone(t, snapshot, has_all_prices, description, now_ns, events);
    let last = driven(begin(t, snapshot, has_all_prices, description, now_ns), events);
    lemma_unheard(last.run.signals, t.active[j]);
    assert(!gone(t.active[j], snapshot.market_id, last.run.signals));
}

/// Counting what is gone is counting the records that are found gone.
proof fn lemma_gone_count(
    active: Seq<TrackedOpportunity>,
    market_id: u16,
    signals: Seq<StrategySignal>,
    meets: spec_fn(TrackedOpportunity) -> bool,
)
    requires
        forall|opp: TrackedOpportunity| #[trigger]
            meets(opp) <==> opp.market_id == market_id && !(opp.state is Slipped) && unheard(
                signals,
                opp,
            ),
    ensures
        gone_count(active, market_id, signals) == active.filter(meets).len(),
    decreases active.len(),
{
    if active.len() == 0 {
        lemma_filter_none(active, meets);
    } else {
        lemma_filter_step(active, meets);
        lemma_gone_count(active.drop_last(), market_id, signals, meets);
        lemma_unheard(signals, active.last());
    }
}

/// Counting what was seen twice is counting the records with two sightings or more.
proof fn lemma_seen_twice(
    active: Seq<TrackedOpportunity>,
    meets: spec_fn(TrackedOpportunity) -> bool,
)
    requires
        forall|opp: TrackedOpportunity| #[trigger] meets(opp) <==> opp.ticks_valid >= 2,
    ensures
        seen_twice(active) == active.filter(meets).len(),
    decreases active.len(),
{
    if active.len() == 0 {
        lemma_filter_none(active, meets);
    } else {
        lemma_filter_step(active, meets);
        lemma_seen_twice(active.drop_last(), meets);
    }
}

/// At all times as many opportunities are counted as detected as there are records, and
/// as many as confirmed as have two sightings or more.
pub proof fn counters_agree_with_the_records(t: TrackerState)
    requires
        t.wf(),
    ensures
        t.total_detected == t.active.len(),
        t.total_confirmed == t.active.filter(|opp: TrackedOpportunity| opp.ticks_valid >= 2).len(),
{
    lemma_seen_twice(t.active, |opp: TrackedOpportunity| opp.ticks_valid >= 2);
}

/// A finished update counts one slip for each record that it finds gone: in its market,
/// not slipped before, and in none of its signals.
pub proof fn finished_update_counts_its_slips(
    t: TrackerState,
    snapshot: MarketSnapshot,
    has_all_prices: bool,
    description: String,
    now_ns: u64,
    events: Seq<Event>,
)
    requires
        t.wf(),
        driven(
            begin(t, snapshot, has_all_prices, description, now_ns),
            events,
        ).action is Finished,
    ensures
        ({
            let last = driven(begin(t, snapshot, has_all_prices, description, now_ns), events);
            last.tracker.total_slipped == t.total_slipped + t.active.filter(
                |opp: TrackedOpportunity|
                    opp.market_id == snapshot.market_id && !(opp.state is Slipped) && unheard(
                        last.run.signals,
                        opp,
                    ),
            ).len()
        }),
{
    finished_update_slips_what_is_gone(t, snapshot, has_all_prices, description, now_ns, events);
    let last = driven(begin(t, snapshot, has_all_prices, description, now_ns), events);
    lemma_gone_count(
        t.active,
        snapshot.market_id,
        last.run.signals,
        |opp: TrackedOpportunity|
            opp.market_id == snapshot.market_id && !(opp.state is Slipped) && unheard(
                last.run.signals,
                opp,
            ),
    );
}

/// An update begins with storing the snapshot exactly where it has all prices and its
/// market was never sampled, or more than a second ago. What is stored and evaluated is
/// the snapshot with the moment of the update.
pub proof fn sampling_goes_by_prices_and_time(
    t: TrackerState,
    snapshot: MarketSnapshot,
    has_all_prices: bool,
    description: String,
    now_ns: u64,
)
    ensures
        ({
            let first = begin(t, snapshot, has_all_prices, description, now_ns);
            let seen_before = t.last_snapshot_ns.contains_key(snapshot.market_id);
            let last = t.last_snapshot_ns[snapshot.market_id];
            let stamped = MarketSnapshot { timestamp_ns: now_ns, ..snapshot };
            &&& first.tracker == t
            &&& first.action is OutOfRange <==> seen_before && now_ns < last
            &&& first.action is SaveSnapshot <==> has_all_prices && (!seen_before || now_ns > last
                + 1_000_000_000)
            &&& first.action is SaveSnapshot || first.action is OutOfRange
                || first.action is Evaluate
            &&& first.action matches Action::SaveSnapshot { snapshot: s } ==> s == stamped
            &&& first.action matches Action::Evaluate { snapshot: s } ==> s == stamped
        }),
{
}

/// What an update makes of the samples: where it asked for the snapshot to be stored,
/// and went on, its market was sampled now and one more sample is counted.
spec fn sampled(start: TrackerState, first: Step, step: Step) -> bool {
    let saving = first.action is SaveSnapshot;
    ||| step.run.stage is Ended && !(step.action is Finished)
    ||| step.run.stage is Sampling && saving && step.tracker.last_snapshot_ns
        == start.last_snapshot_ns && step.tracker.snapshot_count == start.snapshot_count
    ||| !(step.run.stage is Sampling) && saving && step.tracker.last_snapshot_ns
        == start.last_snapshot_ns.insert(
        first.run.snapshot.market_id,
        first.run.snapshot.timestamp_ns,
    ) && step.tracker.snapshot_count == start.snapshot_count + 1
    ||| !(step.run.stage is Sampling) && !saving && step.tracker.last_snapshot_ns
        == start.last_snapshot_ns && step.tracker.snapshot_count == start.snapshot_count
}

/// Whatever is answered, the samples are what the first step asked for.
#[verifier::spinoff_prover]
#[verifier::rlimit(60)]
proof fn lemma_driven_samples(start: TrackerState, first: Step, events: Seq<Event>)
    requires
        sampled(start, first, first),
        !(first.action is Finished),
    ensures
        sampled(start, first, driven(first, events)),
        driven(first, events).run.snapshot == first.run.snapshot,
    decreases events.len(),
{
    if events.len() > 0 {
        lemma_driven_samples(start, first, events.drop_last());
    }
}

/// A finished update remembers when it sampled its market, and counts the sample, where
/// it asked for the snapshot to be stored. Else the samples are as they were.
pub proof fn finished_update_counts_its_sample(
    t: TrackerState,
    snapshot: MarketSnapshot,
    has_all_prices: bool,
    description: String,
    now_ns: u64,
    events: Seq<Event>,
)
    requires
        t.wf(),
        driven(
            begin(t, snapshot, has_all_prices, description, now_ns),
            events,
        ).action is Finished,
    ensures
        ({
            let first = begin(t, snapshot, has_all_prices, description, now_ns);
            let last = driven(first, events);
            &&& first.action is SaveSnapshot ==> {
                &&& last.tracker.last_snapshot_ns == t.last_snapshot_ns.insert(
                    snapshot.market_id,
                    now_ns,
                )
                &&& last.tracker.snapshot_count == t.snapshot_count + 1
            }
            &&& !(first.action is SaveSnapshot) ==> {
                &&& last.tracker.last_snapshot_ns == t.last_snapshot_ns
                &&& last.tracker.snapshot_count == t.snapshot_count
            }
        }),
{
    let first = begin(t, snapshot, has_all_prices, description, now_ns);
    lemma_driven_samples(t, first, events);
    lemma_finished(t, snapshot, has_all_prices, description, now_ns, events);
    if driven(first, events).run.stage is Sampling {
        let before = driven(first, events.drop_last());
        assert(driven(first, events) == resumed(before.tracker, before.run, events.last()));
    }
}

/// A failed action ends an update, or the end of a session, and changes nothing.
pub proof fn failures_change_nothing(t: TrackerState, r: RunState, ending: FinalRunState)
    ensures
        resumed(t, r, Event::Failed).action is Aborted,
        resumed(t, r, Event::Failed).tracker == t,
        final_resumed(t, ending, Event::Failed).action is Aborted,
        final_resumed(t, ending, Event::Failed).tracker == t,
{
}

/// Whether an action is about the records: a new record is stored as its signal says and
/// as seen now; an estimate is made anew from the record's own, grown by its time or
/// scaled by how soon it vanished; what is stored over its record is the record itself.
pub open spec fn about_the_records(after: Step) -> bool {
    let active = after.tracker.active;
    match (after.action, after.run.stage) {
        (Action::InsertOpportunity { opp }, Stage::Inserting { opp: waiting }) => {
            &&& 0 <= after.run.next_signal < after.run.signals.len()
            &&& opp == waiting
            &&& opp.id == 0
            &&& opp.ticks_valid == 1
            &&& opp.state is Detected
            &&& opp.worst_cost_seen == opp.detected_cost
            &&& opp.best_cost_seen == opp.detected_cost
            &&& stands_for(
                opp,
                after.run.signals[after.run.next_signal],
                after.run.description,
                after.run.snapshot.timestamp_ns,
            )
        },
        (
            Action::Reestimate { fill_prob_bits, step },
            Stage::Confirming { slot },
        ) => {
            &&& slot < active.len()
            &&& fill_prob_bits == active[slot as int].estimated_fill_prob_bits
            &&& step == (FillStep::Grow { duration_ns: active[slot as int].duration_ns })
        },
        (Action::Reestimate { fill_prob_bits, step }, Stage::Slipping { slot }) => {
            let ticks = active[slot as int].ticks_valid;
            &&& slot < active.len()
            &&& fill_prob_bits == active[slot as int].estimated_fill_prob_bits
            &&& ticks <= 1 ==> step == (FillStep::Scale {
                factor_bits: 0x3FC9_9999_9999_999A,
            })
            &&& 2 <= ticks <= 3 ==> step == (FillStep::Scale {
                factor_bits: 0x3FE0_0000_0000_0000,
            })
            &&& ticks > 3 ==> step == FillStep::Keep
        },
        (Action::UpdateOpportunity { opp }, Stage::Storing { slot }) => {
            &&& slot < active.len()
            &&& opp == active[slot as int]
        },
        (Action::Evaluate { snapshot }, Stage::Evaluating) => snapshot
            == after.run.snapshot,
        (Action::Finished, Stage::Ended) => true,
        (Action::Aborted, Stage::Ended) => true,
        (Action::OutOfRange, Stage::Ended) => true,
        _ => false,
    }
}

/// Taking the next signal asks for what the records need.
proof fn lemma_advance_actions(t: TrackerState, r: RunState)
    requires
        0 <= r.next_signal <= r.signals.len(),
        t.active.len() <= u64::MAX,
    ensures
        about_the_records(advance(t, r)),
{
    if r.next_signal < r.signals.len() {
        lemma_slot_of(t.active, r.signals[r.next_signal].key(), 0);
    } else {
        lemma_gone_slot(t.active, r.snapshot.market_id, r.signals, 0);
    }
}

/// Whatever comes of the actions, each asks for what the records need.
pub proof fn actions_are_about_the_records(t: TrackerState, r: RunState, event: Event)
    requires
        r.valid(t),
    ensures
        about_the_records(resumed(t, r, event)),
{
    match (r.stage, event) {
        (Stage::Evaluating, Event::Evaluated { signals, costs }) => {
            lemma_advance_actions(t, RunState { signals: signals@, costs, next_signal: 0, ..r });
        },
        (Stage::Confirming { slot }, Event::Reestimated { fill_prob_bits }) => {
            lemma_advance_actions(
                reestimated(t, slot as int, fill_prob_bits),
                RunState { next_signal: r.next_signal + 1, ..r },
            );
        },
        (Stage::Inserting { opp }, Event::Inserted { id }) => {
            if t.total_detected < u64::MAX {
                lemma_advance_actions(
                    TrackerState {
                        active: t.active.push(TrackedOpportunity { id, ..opp }),
                        total_detected: (t.total_detected + 1) as u64,
                        ..t
                    },
                    RunState {
                        next_signal: r.next_signal + 1,
                        new_signals: r.new_signals.push(r.signals[r.next_signal]),
                        ..r
                    },
                );
            }
        },
        (Stage::Storing { slot }, Event::Stored) => {
            if t.total_slipped < u64::MAX {
                lemma_gone_slot(t.active, r.snapshot.market_id, r.signals, slot + 1);
            }
        },
        _ => {},
    }
}

/// An estimate that was made anew is kept in the record that it was made for.
pub proof fn estimates_are_kept(t: TrackerState, r: RunState, slot: u64, fill_prob_bits: u64)
    requires
        r.valid(t),
        r.stage == (Stage::Confirming { slot }) || r.stage == (Stage::Slipping { slot }),
    ensures
        resumed(
            t,
            r,
            Event::Reestimated { fill_prob_bits },
        ).tracker.active[slot as int].estimated_fill_prob_bits == fill_prob_bits,
{
    let after = reestimated(t, slot as int, fill_prob_bits);
    if r.next_signal + 1 < r.signals.len() {
        lemma_slot_of(after.active, r.signals[r.next_signal + 1].key(), 0);
    }
    lemma_gone_slot(after.active, r.snapshot.market_id, r.signals, 0);
}

/// Whether a record was stored over its own at some point of a run.
pub open spec fn was_stored(first: Step, events: Seq<Event>, opp: TrackedOpportunity) -> bool {
    exists|n: int|
        0 <= n < events.len() && (#[trigger] driven(first, events.take(n))).action == (
        Action::UpdateOpportunity { opp }) && events[n] is Stored
}

/// How many slots are stored for certain at a step of a run.
spec fn stored_slots(start: TrackerState, step: Step) -> int {
    match step.run.stage {
        Stage::Slipping { slot } => slot as int,
        Stage::Storing { slot } => slot as int,
        Stage::Ended => if step.action is Finished {
            start.active.len() as int
        } else {
            0
        },
        _ => 0,
    }
}

/// What was stored in a run stays stored when the run goes on.
proof fn lemma_stays_stored(first: Step, events: Seq<Event>, opp: TrackedOpportunity)
    requires
        events.len() > 0,
        was_stored(first, events.drop_last(), opp),
    ensures
        was_stored(first, events, opp),
{
    let earlier = events.drop_last();
    let n = choose|n: int|
        0 <= n < earlier.len() && (#[trigger] driven(first, earlier.take(n))).action == (
        Action::UpdateOpportunity { opp }) && earlier[n] is Stored;
    assert(earlier.take(n) =~= events.take(n));
    assert(events[n] == earlier[n]);
}

/// The slots that a sweep passes over hold nothing that was gone at the start.
proof fn lemma_passed_over(start: TrackerState, t: TrackerState, r: RunState, from: int)
    requires
        0 <= from <= start.active.len(),
        follows(start, t, r, from, from),
    ensures
        forall|j: int|
            from <= j < start.active.len() && j < gone_slot(
                t.active,
                r.snapshot.market_id,
                r.signals,
                from,
            ) ==> !gone(#[trigger] start.active[j], r.snapshot.market_id, r.signals),
        from <= gone_slot(t.active, r.snapshot.market_id, r.signals, from) <= t.active.len(),
{
    lemma_gone_slot(t.active, r.snapshot.market_id, r.signals, from);
    assert forall|j: int|
        from <= j < start.active.len() && j < gone_slot(
            t.active,
            r.snapshot.market_id,
            r.signals,
            from,
        ) implies !gone(#[trigger] start.active[j], r.snapshot.market_id, r.signals) by {
        assert(!gone(t.active[j], r.snapshot.market_id, r.signals));
        assert(t.active[j].key() == start.active[j].key());
    }
}

/// A sweep changes nothing before the slots that it looks at, and stops where something
/// is gone.
proof fn lemma_sweep_stored(start: TrackerState, t: TrackerState, r: RunState, from: int)
    requires
        0 <= from <= start.active.len(),
        start.active.len() <= u64::MAX,
        r.next_signal == r.signals.len(),
        follows(start, t, r, from, from),
        confirms(start, t, r, r.next_signal),
        added(start, t, r, r.next_signal),
    ensures
        forall|j: int|
            0 <= j < from ==> #[trigger] sweep(t, r, from).tracker.active[j] == t.active[j],
        forall|j: int|
            from <= j < start.active.len() && j < stored_slots(start, sweep(t, r, from)) ==> !gone(
                #[trigger] start.active[j],
                r.snapshot.market_id,
                r.signals,
            ),
        sweep(t, r, from).run.signals == r.signals,
{
    lemma_passed_over(start, t, r, from);
    lemma_sweep_follows(start, t, r, from);
}

/// At each step of a run, what was found gone so far is stored, as it is now.
#[verifier::spinoff_prover]
#[verifier::rlimit(60)]
proof fn lemma_driven_stored(start: TrackerState, first: Step, events: Seq<Event>)
    requires
        start.wf(),
        first.run.valid(first.tracker),
        step_follows(start, first),
        !(first.action is Finished),
        first.run.stage is Sampling || first.run.stage is Evaluating || first.run.stage is Ended,
    ensures
        ({
            let step = driven(first, events);
            forall|j: int|
                0 <= j < start.active.len() && j < stored_slots(start, step) && gone(
                    start.active[j],
                    step.run.snapshot.market_id,
                    step.run.signals,
                ) ==> was_stored(first, events, #[trigger] step.tracker.active[j])
        }),
    decreases events.len(),
{
    if events.len() > 0 {
        let earlier = events.drop_last();
        let before = driven(first, earlier);
        let step = driven(first, events);
        let market_id = step.run.snapshot.market_id;
        lemma_driven_stored(start, first, earlier);
        lemma_driven_follows(start, first, earlier);
        any_update_keeps_the_tracker(first, earlier);
        lemma_step_follows(start, before.tracker, before.run, events.last());
        lemma_stored_step(start, before, events.last());
        if stored_slots(start, step) > 0 {
            assert forall|j: int|
                0 <= j < start.active.len() && j < stored_slots(start, step) && gone(
                    start.active[j],
                    market_id,
                    step.run.signals,
                ) implies was_stored(first, events, #[trigger] step.tracker.active[j]) by {
                if j < stored_slots(start, before) {
                    assert(was_stored(first, earlier, before.tracker.active[j]));
                    lemma_stays_stored(first, events, before.tracker.active[j]);
                } else {
                    assert(before.run.stage is Storing);
                    if earlier.len() > 0 {
                        let one = driven(first, earlier.drop_last());
                        any_update_keeps_the_tracker(first, earlier.drop_last());
                        actions_are_about_the_records(one.tracker, one.run, earlier.last());
                    }
                    assert(before.action == (Action::UpdateOpportunity {
                        opp: before.tracker.active[j],
                    }));
                    assert(events.take(earlier.len() as int) =~= earlier);
                    assert(driven(first, events.take(earlier.len() as int)).action == (
                    Action::UpdateOpportunity { opp: step.tracker.active[j] }));
                    assert(events[earlier.len() as int] == events.last());
                }
            }
        }
    }
}

/// One step: what was stored before it is unchanged, and what is stored by it was being
/// stored.
#[verifier::spinoff_prover]
#[verifier::rlimit(60)]
proof fn lemma_stored_step(start: TrackerState, before: Step, event: Event)
    requires
        start.wf(),
        before.run.valid(before.tracker),
        stage_follows(start, before.tracker, before.run),
    ensures
        ({
            let step = resumed(before.tracker, before.run, event);
            forall|j: int|
                #![trigger step.tracker.active[j]]
                0 <= j < start.active.len() && j < stored_slots(start, step) && gone(
                    start.active[j],
                    step.run.snapshot.market_id,
                    step.run.signals,
                ) ==> {
                    &&& step.tracker.active[j] == before.tracker.active[j]
                    &&& step.run.signals == before.run.signals
                    &&& step.run.snapshot == before.run.snapshot
                    &&& j < stored_slots(start, before) || (event is Stored && before.run.stage
                        == (Stage::Storing { slot: j as u64 }))
                }
        }),
{
    let t = before.tracker;
    let r = before.run;
    let step = resumed(t, r, event);
    match (r.stage, event) {
        (Stage::Evaluating, Event::Evaluated { signals, costs }) => {
            let next = RunState { signals: signals@, costs, next_signal: 0, ..r };
            assert(next.signals.take(0) =~= Seq::<StrategySignal>::empty());
            assert(r.new_signals =~= Seq::<StrategySignal>::empty());
            assert(start.active.take(0) =~= Seq::<TrackedOpportunity>::empty());
            assert(follows(start, t, next, 0, 0));
            if next.signals.len() == 0 {
                assert(confirms(start, t, next, 0));
                assert(added(start, t, next, 0));
                lemma_sweep_stored(start, t, next, 0);
            }
        },
        (Stage::Confirming { slot }, Event::Reestimated { fill_prob_bits }) => {
            lemma_confirmed_state(start, t, r, slot, fill_prob_bits);
            let after = reestimated(t, slot as int, fill_prob_bits);
            let next = RunState { next_signal: r.next_signal + 1, ..r };
            if next.next_signal == next.signals.len() {
                lemma_sweep_stored(start, after, next, 0);
            }
        },
        (Stage::Inserting { opp }, Event::Inserted { id }) => {
            if t.total_detected < u64::MAX {
                lemma_inserted_state(start, t, r, opp, id);
                let after = TrackerState {
                    active: t.active.push(TrackedOpportunity { id, ..opp }),
                    total_detected: (t.total_detected + 1) as u64,
                    ..t
                };
                let next = RunState {
                    next_signal: r.next_signal + 1,
                    new_signals: r.new_signals.push(r.signals[r.next_signal]),
                    ..r
                };
                if next.next_signal == next.signals.len() {
                    lemma_sweep_stored(start, after, next, 0);
                }
            }
        },
        (Stage::Storing { slot }, Event::Stored) => {
            if t.total_slipped < u64::MAX {
                lemma_stored_state(start, t, r, slot);
                let after = TrackerState { total_slipped: (t.total_slipped + 1) as u64, ..t };
                lemma_sweep_stored(start, after, r, slot + 1);
            }
        },
        _ => {},
    }
}

/// In a finished update, each record that was found gone was stored as it is in the end.
pub proof fn finished_update_stores_what_slipped(
    t: TrackerState,
    snapshot: MarketSnapshot,
    has_all_prices: bool,
    description: String,
    now_ns: u64,
    events: Seq<Event>,
    j: int,
)
    requires
        t.wf(),
        driven(
            begin(t, snapshot, has_all_prices, description, now_ns),
            events,
        ).action is Finished,
        0 <= j < t.active.len(),
        t.active[j].market_id == snapshot.market_id,
        !(t.active[j].state is Slipped),
        unheard(
            driven(
                begin(t, snapshot, has_all_prices, description, now_ns),
                events,
            ).run.signals,
            t.active[j],
        ),
    ensures
        was_stored(
            begin(t, snapshot, has_all_prices, description, now_ns),
            events,
            driven(
                begin(t, snapshot, has_all_prices, description, now_ns),
                events,
            ).tracker.active[j],
        ),
{
    let first = begin(t, snapshot, has_all_prices, description, now_ns);
    let last = driven(first, events);
    lemma_begin_follows(t, snapshot, has_all_prices, description, now_ns);
    lemma_finished(t, snapshot, has_all_prices, description, now_ns, events);
    lemma_driven_stored(t, first, events);
    lemma_unheard(last.run.signals, t.active[j]);
    if events.len() > 0 {
        let before = driven(first, events.drop_last());
        any_update_keeps_the_tracker(first, events.drop_last());
        actions_are_about_the_records(before.tracker, before.run, events.last());
    }
    assert(was_stored(first, events, last.tracker.active[j]));
}

/// Whether a record was stored as new at some point of a run, and has the number that
/// the store gave it.
pub open spec fn was_inserted(first: Step, events: Seq<Event>, record: TrackedOpportunity) -> bool {
    exists|n: int|
        0 <= n < events.len() && ((#[trigger] driven(first, events.take(n))).action matches
            Action::InsertOpportunity { opp } && (events[n] matches Event::Inserted { id }
            && record.id == id && record.same_detection(TrackedOpportunity { id, ..opp })))
}

/// What was stored as new in a run stays so when the run goes on.
proof fn lemma_stays_inserted(
    first: Step,
    events: Seq<Event>,
    old_record: TrackedOpportunity,
    record: TrackedOpportunity,
)
    requires
        events.len() > 0,
        was_inserted(first, events.drop_last(), old_record),
        record.same_detection(old_record),
    ensures
        was_inserted(first, events, record),
{
    let earlier = events.drop_last();
    let n = choose|n: int|
        0 <= n < earlier.len() && ((#[trigger] driven(first, earlier.take(n))).action matches
            Action::InsertOpportunity { opp } && (earlier[n] matches Event::Inserted { id }
            && old_record.id == id && old_record.same_detection(
            TrackedOpportunity { id, ..opp },
        )));
    assert(earlier.take(n) =~= events.take(n));
    assert(events[n] == earlier[n]);
    assert(driven(first, events.take(n)).action is InsertOpportunity);
}

/// A record that a step added was being stored as new by the step before it.
proof fn lemma_new_is_inserted(first: Step, events: Seq<Event>)
    requires
        first.run.valid(first.tracker),
        first.run.stage is Sampling || first.run.stage is Evaluating || first.run.stage is Ended,
        events.len() > 0,
        driven(first, events).tracker.active.len() > driven(
            first,
            events.drop_last(),
        ).tracker.active.len(),
    ensures
        was_inserted(first, events, driven(first, events).tracker.active.last()),
        driven(first, events).tracker.active.len() == driven(
            first,
            events.drop_last(),
        ).tracker.active.len() + 1,
{
    let earlier = events.drop_last();
    let before = driven(first, earlier);
    any_update_keeps_the_tracker(first, earlier);
    lemma_added_by_a_step(before.tracker, before.run, events.last());
    if earlier.len() > 0 {
        let one = driven(first, earlier.drop_last());
        any_update_keeps_the_tracker(first, earlier.drop_last());
        actions_are_about_the_records(one.tracker, one.run, earlier.last());
    }
    assert(events.take(earlier.len() as int) =~= earlier);
    assert(events[earlier.len() as int] == events.last());
    assert(driven(first, events.take(earlier.len() as int)).action is InsertOpportunity);
}

/// At each step of a run, every record that it added was stored as new.
#[verifier::spinoff_prover]
#[verifier::rlimit(60)]
proof fn lemma_driven_inserted(start: TrackerState, first: Step, events: Seq<Event>)
    requires
        first.run.valid(first.tracker),
        first.tracker == start,
        first.run.stage is Sampling || first.run.stage is Evaluating || first.run.stage is Ended,
    ensures
        ({
            let step = driven(first, events);
            forall|j: int|
                start.active.len() <= j < step.tracker.active.len() ==> was_inserted(
                    first,
                    events,
                    #[trigger] step.tracker.active[j],
                )
        }),
    decreases events.len(),
{
    if events.len() > 0 {
        let earlier = events.drop_last();
        let before = driven(first, earlier);
        let step = driven(first, events);
        lemma_driven_inserted(start, first, earlier);
        any_update_keeps_the_tracker(first, earlier);
        update_forgets_nothing(before.tracker, before.run, events.last());
        assert forall|j: int| start.active.len() <= j < step.tracker.active.len() implies was_inserted(
            first,
            events,
            #[trigger] step.tracker.active[j],
        ) by {
            let record = step.tracker.active[j];
            if j < before.tracker.active.len() {
                let old_record = before.tracker.active[j];
                assert(was_inserted(first, earlier, old_record));
                assert(record.same_detection(old_record));
                lemma_stays_inserted(first, events, old_record, record);
            } else {
                lemma_new_is_inserted(first, events);
            }
        }
    }
}

/// A step adds a record only where one was being stored as new, and that one.
proof fn lemma_added_by_a_step(t: TrackerState, r: RunState, event: Event)
    requires
        r.valid(t),
    ensures
        ({
            let after = resumed(t, r, event).tracker.active;
            &&& after.len() <= t.active.len() + 1
            &&& after.len() > t.active.len() ==> (r.stage matches Stage::Inserting { opp } && (
            event matches Event::Inserted { id } && after.last().id == id
                && after.last().same_detection(TrackedOpportunity { id, ..opp })))
        }),
{
    match (r.stage, event) {
        (Stage::Evaluating, Event::Evaluated { signals, costs }) => {
            lemma_advance_adds_nothing(
                t,
                RunState { signals: signals@, costs, next_signal: 0, ..r },
            );
        },
        (Stage::Confirming { slot }, Event::Reestimated { fill_prob_bits }) => {
            lemma_advance_adds_nothing(
                reestimated(t, slot as int, fill_prob_bits),
                RunState { next_signal: r.next_signal + 1, ..r },
            );
        },
        (Stage::Inserting { opp }, Event::Inserted { id }) => {
            if t.total_detected < u64::MAX {
                lemma_advance_adds_nothing(
                    TrackerState {
                        active: t.active.push(TrackedOpportunity { id, ..opp }),
                        total_detected: (t.total_detected + 1) as u64,
                        ..t
                    },
                    RunState {
                        next_signal: r.next_signal + 1,
                        new_signals: r.new_signals.push(r.signals[r.next_signal]),
                        ..r
                    },
                );
                let after = resumed(t, r, event).tracker.active;
                assert(after[t.active.len() as int].same_detection(
                    t.active.push(TrackedOpportunity { id, ..opp })[t.active.len() as int],
                ));
            }
        },
        (Stage::Storing { slot }, Event::Stored) => {
            lemma_gone_slot(t.active, r.snapshot.market_id, r.signals, slot + 1);
        },
        _ => {},
    }
}

/// Taking the next signal adds no record and rewrites no detection.
proof fn lemma_advance_adds_nothing(t: TrackerState, r: RunState)
    requires
        0 <= r.next_signal <= r.signals.len(),
    ensures
        advance(t, r).tracker.active.len() == t.active.len(),
        forall|j: int|
            0 <= j < t.active.len() ==> (#[trigger] advance(t, r).tracker.active[j]).same_detection(
                t.active[j],
            ),
{
    if r.next_signal < r.signals.len() {
        lemma_slot_of(t.active, r.signals[r.next_signal].key(), 0);
    } else {
        lemma_gone_slot(t.active, r.snapshot.market_id, r.signals, 0);
    }
}

/// In any update, each record that it added was stored as new, with what was handed to
/// the store, and has the number that the store gave it.
pub proof fn update_stores_what_is_new(
    t: TrackerState,
    snapshot: MarketSnapshot,
    has_all_prices: bool,
    description: String,
    now_ns: u64,
    events: Seq<Event>,
    j: int,
)
    requires
        t.wf(),
        t.active.len() <= j < driven(
            begin(t, snapshot, has_all_prices, description, now_ns),
            events,
        ).tracker.active.len(),
    ensures
        was_inserted(
            begin(t, snapshot, has_all_prices, description, now_ns),
            events,
            driven(
                begin(t, snapshot, has_all_prices, description, now_ns),
                events,
            ).tracker.active[j],
        ),
{
    let first = begin(t, snapshot, has_all_prices, description, now_ns);
    assert(first.run.new_signals.len() == 0);
    lemma_driven_inserted(t, first, events);
    assert(was_inserted(first, events, driven(first, events).tracker.active[j]));
}

/// The end of a session leaves what has slipped, and closes all else: closed profitably,
/// with a fill probability of 0.9 and the time since the detection. Profits, costs and
/// sightings stay.
pub proof fn finalizing_keeps_the_profits(
    t: TrackerState,
    now_ns: u64,
    events: Seq<Event>,
    j: int,
)
    requires
        t.wf(),
        0 <= j < t.active.len(),
        driven_to_the_end(
            close_next(t, FinalRunState { now_ns, stage: FinalStage::Ended }, 0),
            events,
        ).action is Finished,
    ensures
        ({
            let first = close_next(t, FinalRunState { now_ns, stage: FinalStage::Ended }, 0);
            let before = t.active[j];
            let after = driven_to_the_end(first, events).tracker.active[j];
            &&& before.state is Slipped ==> after == before
            &&& !(before.state is Slipped) ==> {
                &&& after.state is ClosedProfitable
                &&& after.estimated_fill_prob_bits == 0x3FEC_CCCC_CCCC_CCCD
                &&& now_ns >= before.detected_at_ns ==> after.duration_ns == now_ns
                    - before.detected_at_ns
                &&& after.adjusted_profit == before.adjusted_profit
                &&& after.estimated_slippage == before.estimated_slippage
                &&& after.final_cost == before.final_cost
                &&& after.ticks_valid == before.ticks_valid
                &&& after.last_seen_ns == before.last_seen_ns
                &&& after.worst_cost_seen == before.worst_cost_seen
                &&& after.best_cost_seen == before.best_cost_seen
                &&& after.same_detection(before)
            }
        }),
{
    finalizing_closes_what_has_not_slipped(t, now_ns, events);
    let first = close_next(t, FinalRunState { now_ns, stage: FinalStage::Ended }, 0);
    assert(driven_to_the_end(first, events).tracker.active[j] == ended(t.active[j], now_ns));
}

/// Whether a record was stored over its own at some point of the end of a session.
pub open spec fn was_closed(first: FinalStep, events: Seq<Event>, opp: TrackedOpportunity) -> bool {
    exists|n: int|
        0 <= n < events.len() && (#[trigger] driven_to_the_end(first, events.take(n))).action == (
        Action::UpdateOpportunity { opp }) && events[n] is Stored
}

/// Whether the totals were stored at some point of the end of a session.
pub open spec fn was_totalled(
    first: FinalStep,
    events: Seq<Event>,
    markets_tracked: u32,
    opportunities: u32,
) -> bool {
    exists|n: int|
        0 <= n < events.len() && (#[trigger] driven_to_the_end(first, events.take(n))).action == (
        Action::EndSession { markets_tracked, opportunities }) && events[n] is Stored
}

/// What the end of a session asks for is about the records and the totals.
spec fn closes_the_records(start: TrackerState, step: FinalStep) -> bool {
    &&& step.run.stage matches FinalStage::Closing { slot } ==> slot < step.tracker.active.len()
        && step.action == (Action::UpdateOpportunity { opp: step.tracker.active[slot as int] })
    &&& step.run.stage is Totalling ==> step.action == (Action::EndSession {
        markets_tracked: start.last_snapshot_ns.len() as u32,
        opportunities: (start.total_detected % 0x1_0000_0000) as u32,
    })
    &&& step.run.stage is Ended ==> step.action is Finished || step.action is Aborted
    &&& step.action is Finished ==> step.run.stage is Ended
}

/// How many slots are stored for certain at a step of the end of a session.
spec fn closed_slots(start: TrackerState, step: FinalStep) -> int {
    match step.run.stage {
        FinalStage::Closing { slot } => slot as int,
        FinalStage::Totalling => start.active.len() as int,
        FinalStage::Ended => if step.action is Finished {
            start.active.len() as int
        } else {
            0
        },
    }
}

/// At each step of the end of a session, what was closed so far is stored, as it is now.
proof fn lemma_final_stored(t: TrackerState, now_ns: u64, events: Seq<Event>)
    requires
        t.wf(),
    ensures
        ({
            let first = close_next(t, FinalRunState { now_ns, stage: FinalStage::Ended }, 0);
            let step = driven_to_the_end(first, events);
            &&& closes_the_records(t, step)
            &&& forall|j: int|
                0 <= j < t.active.len() && j < closed_slots(t, step) && !(
                t.active[j].state is Slipped) ==> was_closed(
                    first,
                    events,
                    #[trigger] step.tracker.active[j],
                )
            &&& step.action is Finished ==> was_totalled(
                first,
                events,
                t.last_snapshot_ns.len() as u32,
                (t.total_detected % 0x1_0000_0000) as u32,
            )
        }),
    decreases events.len(),
{
    let idle = FinalRunState { now_ns, stage: FinalStage::Ended };
    let first = close_next(t, idle, 0);
    let step = driven_to_the_end(first, events);
    lemma_final_follows(t, now_ns, events);
    if events.len() == 0 {
        lemma_open_slot(t.active, 0);
    } else {
        let earlier = events.drop_last();
        let before = driven_to_the_end(first, earlier);
        lemma_final_stored(t, now_ns, earlier);
        lemma_final_follows(t, now_ns, earlier);
        assert(events.take(earlier.len() as int) =~= earlier);
        assert(events[earlier.len() as int] == events.last());
        if let FinalStage::Closing { slot } = before.run.stage {
            lemma_open_slot(before.tracker.active, slot + 1);
        }
        assert forall|j: int|
            0 <= j < t.active.len() && j < closed_slots(t, step) && !(
            t.active[j].state is Slipped) implies was_closed(
            first,
            events,
            #[trigger] step.tracker.active[j],
        ) by {
            assert(step.tracker.active[j] == before.tracker.active[j]) by {
                if let FinalStage::Closing { slot } = before.run.stage {
                    if j > slot {
                        assert(before.tracker.active[j].state is Slipped);
                    }
                }
            }
            if j < closed_slots(t, before) {
                assert(was_closed(first, earlier, before.tracker.active[j]));
                let n = choose|n: int|
                    0 <= n < earlier.len() && (#[trigger] driven_to_the_end(
                        first,
                        earlier.take(n),
                    )).action == (Action::UpdateOpportunity { opp: before.tracker.active[j] })
                        && earlier[n] is Stored;
                assert(earlier.take(n) =~= events.take(n));
                assert(events[n] == earlier[n]);
                assert(driven_to_the_end(first, events.take(n)).action is UpdateOpportunity);
            } else {
                assert(driven_to_the_end(
                    first,
                    events.take(earlier.len() as int),
                ).action is UpdateOpportunity);
            }
        }
        if step.action is Finished {
            assert(before.run.stage is Totalling);
            assert(driven_to_the_end(first, events.take(earlier.len() as int)).action is EndSession);
        }
    }
}

/// In a finished end of a session, each record that had not slipped was stored as it is
/// in the end.
pub proof fn finalizing_stores_what_it_closes(
    t: TrackerState,
    now_ns: u64,
    events: Seq<Event>,
    j: int,
)
    requires
        t.wf(),
        0 <= j < t.active.len(),
        !(t.active[j].state is Slipped),
        driven_to_the_end(
            close_next(t, FinalRunState { now_ns, stage: FinalStage::Ended }, 0),
            events,
        ).action is Finished,
    ensures
        was_closed(
            close_next(t, FinalRunState { now_ns, stage: FinalStage::Ended }, 0),
            events,
            driven_to_the_end(
                close_next(t, FinalRunState { now_ns, stage: FinalStage::Ended }, 0),
                events,
            ).tracker.active[j],
        ),
{
    lemma_final_stored(t, now_ns, events);
    lemma_final_follows(t, now_ns, events);
    let first = close_next(t, FinalRunState { now_ns, stage: FinalStage::Ended }, 0);
    assert(was_closed(first, events, driven_to_the_end(first, events).tracker.active[j]));
}

/// The markets of which one of a sequence of updates asked for the snapshot to be stored.
pub open spec fn saved_markets(t: TrackerState, updates: Seq<Update>) -> Set<u16>
    decreases updates.len(),
{
    if updates.len() == 0 {
        Set::empty()
    } else {
        let update = updates.last();
        let before = after_updates(t, updates.drop_last());
        let first = begin(
            before,
            update.snapshot,
            update.has_all_prices,
            update.description,
            update.now_ns,
        );
        if first.action is SaveSnapshot {
            saved_markets(t, updates.drop_last()).insert(update.snapshot.market_id)
        } else {
            saved_markets(t, updates.drop_last())
        }
    }
}

/// Over a sequence of finished updates, the markets that were sampled are those of which
/// the snapshot was stored.
pub proof fn sampled_markets_are_those_stored(t: TrackerState, updates: Seq<Update>)
    requires
        t.wf(),
        all_finished(t, updates),
    ensures
        after_updates(t, updates).last_snapshot_ns.dom() == t.last_snapshot_ns.dom().union(
            saved_markets(t, updates),
        ),
    decreases updates.len(),
{
    if updates.len() == 0 {
        assert(t.last_snapshot_ns.dom() =~= t.last_snapshot_ns.dom().union(
            saved_markets(t, updates),
        ));
    } else {
        let update = updates.last();
        let before = after_updates(t, updates.drop_last());
        sampled_markets_are_those_stored(t, updates.drop_last());
        lemma_updates(t, updates.drop_last());
        finished_update_counts_its_sample(
            before,
            update.snapshot,
            update.has_all_prices,
            update.description,
            update.now_ns,
            update.events,
        );
        assert(after_updates(t, updates).last_snapshot_ns.dom() =~= t.last_snapshot_ns.dom().union(
            saved_markets(t, updates),
        ));
    }
}

/// The totals of a session that started with nothing say how many different markets had
/// their snapshot stored, and how many different opportunities were signalled, the latter
/// in 32 bits. A finished end of the session has them stored.
pub proof fn totals_count_markets_and_opportunities(
    t: TrackerState,
    updates: Seq<Update>,
    now_ns: u64,
    events: Seq<Event>,
)
    requires
        t.wf(),
        t.active.len() == 0,
        t.last_snapshot_ns.dom() == Set::<u16>::empty(),
        all_finished(t, updates),
    ensures
        ({
            let first = close_next(
                after_updates(t, updates),
                FinalRunState { now_ns, stage: FinalStage::Ended },
                0,
            );
            let step = driven_to_the_end(first, events);
            let markets = saved_markets(t, updates).len();
            let opportunities = keys_of(signalled(t, updates)).to_set().len();
            &&& markets <= u32::MAX
            &&& step.action matches Action::EndSession {
                markets_tracked,
                opportunities: stored,
            } ==> markets_tracked == markets && stored == opportunities % 0x1_0000_0000
            &&& step.action is Finished ==> was_totalled(
                first,
                events,
                markets as u32,
                (opportunities % 0x1_0000_0000) as u32,
            )
        }),
{
    let last = after_updates(t, updates);
    lemma_updates(t, updates);
    sampled_markets_are_those_stored(t, updates);
    detections_are_the_different_opportunities(t, updates);
    assert(last.last_snapshot_ns.dom() =~= saved_markets(t, updates));
    sampled_markets_fit(last);
    assert(last.last_snapshot_ns.len() == saved_markets(t, updates).len());
    lemma_final_stored(last, now_ns, events);
    lemma_final_follows(last, now_ns, events);
}

} // verus!
