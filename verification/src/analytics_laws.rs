//! What the statistics come to, said of the rows themselves: how many rows meet which
//! condition, what their numbers add up to, and which strategy comes out first.

use crate::analytics::{
    all_slipped, count, descending, descending_keys, distinct, distinct_lists_each_once, estimates_of,
    everything, frequency_keys, group_of, groups, has_best_rate, has_lowest_slippage, is_largest,
    is_smallest, labels, no_value, present, profit_keys, rate_counts, slipped_of,
    slippage_counts, some_slippage_missing, sum, ArbTypeStats, GroupEstimates, Grouping, Measure,
    OpportunityRow, Scope, SessionSummary, SlippageAnalysis, StrategyStats, Tally,
};
use crate::counting::{lemma_filter_none, lemma_filter_step, lemma_fold_step};
use crate::ranking::{among, are_lowest, precedes};
use vstd::prelude::*;

verus! {

/// How many rows meet a condition.
pub open spec fn number_of(
    rows: Seq<OpportunityRow>,
    meets: spec_fn(OpportunityRow) -> bool,
) -> nat {
    rows.filter(meets).len()
}

/// What the numbers of the rows add up to; a row without a number adds nothing.
pub open spec fn total_of(
    rows: Seq<OpportunityRow>,
    number: spec_fn(OpportunityRow) -> Option<int>,
) -> int {
    rows.fold_left(
        0int,
        |total: int, row: OpportunityRow|
            total + match number(row) {
                Some(n) => n,
                None => 0,
            },
    )
}

/// The slippage of a row, where it is written down.
pub open spec fn slippage_of(row: OpportunityRow) -> Option<int> {
    match row.estimated_slippage {
        Some(s) => Some(s as int),
        None => None,
    }
}

/// Whether a row is of a strategy.
pub open spec fn of_strategy(name: Seq<char>) -> spec_fn(OpportunityRow) -> bool {
    |row: OpportunityRow| row.strategy_id@ == name
}

/// Whether a row of a strategy was confirmed, or closed profitably.
pub open spec fn lasting_of(name: Seq<char>) -> spec_fn(OpportunityRow) -> bool {
    |row: OpportunityRow|
        row.strategy_id@ == name && (row.state is Confirmed || row.state is ClosedProfitable)
}

/// Whether a row of a strategy slipped.
pub open spec fn slipping_of(name: Seq<char>) -> spec_fn(OpportunityRow) -> bool {
    |row: OpportunityRow| row.strategy_id@ == name && row.state is Slipped
}

/// Whether a row of a strategy slipped by an amount that is written down.
pub open spec fn measured_of(name: Seq<char>) -> spec_fn(OpportunityRow) -> bool {
    |row: OpportunityRow|
        row.strategy_id@ == name && row.state is Slipped && row.estimated_slippage is Some
}

/// What a row of a strategy slipped by.
pub open spec fn measure_of(name: Seq<char>) -> spec_fn(OpportunityRow) -> Option<int> {
    |row: OpportunityRow|
        if row.strategy_id@ == name && row.state is Slipped {
            slippage_of(row)
        } else {
            None
        }
}

/// How many opportunities of a strategy there are.
pub open spec fn total_for(rows: Seq<OpportunityRow>, name: Seq<char>) -> nat {
    number_of(rows, of_strategy(name))
}

/// How many opportunities of a strategy were confirmed, or closed profitably.
pub open spec fn lasted_for(rows: Seq<OpportunityRow>, name: Seq<char>) -> nat {
    number_of(rows, lasting_of(name))
}

/// How many opportunities of a strategy slipped.
pub open spec fn slipped_for(rows: Seq<OpportunityRow>, name: Seq<char>) -> nat {
    number_of(rows, slipping_of(name))
}

/// What the slippages of a strategy add up to, over what slipped.
pub open spec fn slippage_total_for(rows: Seq<OpportunityRow>, name: Seq<char>) -> int {
    total_of(rows, measure_of(name))
}

/// How many slippages of a strategy are written down, over what slipped.
pub open spec fn slippage_number_for(rows: Seq<OpportunityRow>, name: Seq<char>) -> nat {
    number_of(rows, measured_of(name))
}

/// Counting within a scope is counting the rows that are in it.
proof fn lemma_count(
    rows: Seq<OpportunityRow>,
    scope: Scope,
    tally: Tally,
    meets: spec_fn(OpportunityRow) -> bool,
)
    requires
        forall|row: OpportunityRow| #[trigger]
            meets(row) <==> row.within(scope) && row.counts(tally),
    ensures
        count(rows, scope, tally) == number_of(rows, meets),
    decreases rows.len(),
{
    if rows.len() == 0 {
        lemma_filter_none(rows, meets);
    } else {
        lemma_filter_step(rows, meets);
        lemma_count(rows.drop_last(), scope, tally, meets);
        assert(meets(rows.last()) <==> rows.last().within(scope) && rows.last().counts(tally));
    }
}

/// Counting the values within a scope is counting the rows that have one.
proof fn lemma_present(
    rows: Seq<OpportunityRow>,
    scope: Scope,
    measure: Measure,
    meets: spec_fn(OpportunityRow) -> bool,
)
    requires
        forall|row: OpportunityRow| #[trigger]
            meets(row) <==> row.within(scope) && row.value(measure) is Some,
    ensures
        present(rows, scope, measure) == number_of(rows, meets),
    decreases rows.len(),
{
    if rows.len() == 0 {
        lemma_filter_none(rows, meets);
    } else {
        lemma_filter_step(rows, meets);
        lemma_present(rows.drop_last(), scope, measure, meets);
        assert(meets(rows.last()) <==> rows.last().within(scope) && rows.last().value(
            measure,
        ) is Some);
    }
}

/// Summing within a scope is adding up the numbers of the rows that are in it.
proof fn lemma_sum(
    rows: Seq<OpportunityRow>,
    scope: Scope,
    measure: Measure,
    number: spec_fn(OpportunityRow) -> Option<int>,
)
    requires
        forall|row: OpportunityRow| #[trigger]
            number(row) == if row.within(scope) {
                row.value(measure)
            } else {
                None
            },
    ensures
        sum(rows, scope, measure) == total_of(rows, number),
    decreases rows.len(),
{
    let add = |total: int, row: OpportunityRow|
        total + match number(row) {
            Some(n) => n,
            None => 0,
        };
    if rows.len() == 0 {
        reveal_with_fuel(Seq::fold_left, 2);
    } else {
        lemma_fold_step(rows, add);
        lemma_sum(rows.drop_last(), scope, measure, number);
        assert(number(rows.last()) == if rows.last().within(scope) {
            rows.last().value(measure)
        } else {
            None
        });
    }
}

/// Confirmed are the rows that were confirmed or closed profitably, slipped those that
/// slipped; of those that slipped, the slippages above zero and the others are counted
/// apart.
pub proof fn tallies_count_the_states(rows: Seq<OpportunityRow>)
    ensures
        count(rows, everything(), Tally::All) == rows.len(),
        count(rows, everything(), Tally::Confirmed) == number_of(
            rows,
            |row: OpportunityRow| row.state is Confirmed || row.state is ClosedProfitable,
        ),
        count(rows, everything(), Tally::Slipped) == number_of(
            rows,
            |row: OpportunityRow| row.state is Slipped,
        ),
        count(rows, all_slipped(), Tally::PositiveSlippage) == number_of(
            rows,
            |row: OpportunityRow|
                row.state is Slipped && (row.estimated_slippage matches Some(s) && s > 0),
        ),
        count(rows, all_slipped(), Tally::ZeroOrNegativeSlippage) == number_of(
            rows,
            |row: OpportunityRow|
                row.state is Slipped && (row.estimated_slippage matches Some(s) && s <= 0),
        ),
{
    crate::analytics::all_are_counted(rows);
    lemma_count(
        rows,
        everything(),
        Tally::Confirmed,
        |row: OpportunityRow| row.state is Confirmed || row.state is ClosedProfitable,
    );
    lemma_count(
        rows,
        everything(),
        Tally::Slipped,
        |row: OpportunityRow| row.state is Slipped,
    );
    lemma_count(
        rows,
        all_slipped(),
        Tally::PositiveSlippage,
        |row: OpportunityRow|
            row.state is Slipped && (row.estimated_slippage matches Some(s) && s > 0),
    );
    lemma_count(
        rows,
        all_slipped(),
        Tally::ZeroOrNegativeSlippage,
        |row: OpportunityRow|
            row.state is Slipped && (row.estimated_slippage matches Some(s) && s <= 0),
    );
}

/// What is counted of a strategy is what its own rows say, and so of a kind.
pub proof fn tallies_count_a_groups_own_rows(rows: Seq<OpportunityRow>, name: Seq<char>)
    ensures
        count(rows, group_of(Grouping::Strategy, name), Tally::All) == total_for(rows, name),
        count(rows, group_of(Grouping::Strategy, name), Tally::Confirmed) == lasted_for(
            rows,
            name,
        ),
        count(rows, group_of(Grouping::Strategy, name), Tally::Slipped) == slipped_for(
            rows,
            name,
        ),
        count(rows, group_of(Grouping::ArbType, name), Tally::All) == number_of(
            rows,
            |row: OpportunityRow| row.arb_type@ == name,
        ),
{
    lemma_count(rows, group_of(Grouping::Strategy, name), Tally::All, of_strategy(name));
    lemma_count(rows, group_of(Grouping::Strategy, name), Tally::Confirmed, lasting_of(name));
    lemma_count(rows, group_of(Grouping::Strategy, name), Tally::Slipped, slipping_of(name));
    lemma_count(
        rows,
        group_of(Grouping::ArbType, name),
        Tally::All,
        |row: OpportunityRow| row.arb_type@ == name,
    );
}

/// A summary counts all rows, those that were confirmed or closed profitably, and those
/// that slipped; its means are over all rows, each over those that have the number.
pub proof fn summaries_are_over_all_rows(summary: SessionSummary, rows: Seq<OpportunityRow>)
    requires
        summary.sums_up(rows),
    ensures
        summary.total_opportunities == rows.len(),
        summary.confirmed == number_of(
            rows,
            |row: OpportunityRow| row.state is Confirmed || row.state is ClosedProfitable,
        ),
        summary.slipped == number_of(rows, |row: OpportunityRow| row.state is Slipped),
        summary.avg_profit.sum == total_of(
            rows,
            |row: OpportunityRow|
                Some(row.detected_profit as int),
        ),
        summary.avg_profit.count == number_of(
            rows,
            |row: OpportunityRow| true,
        ),
        summary.avg_adjusted_profit.sum == total_of(
            rows,
            |row: OpportunityRow|
                match row.adjusted_profit {
                    Some(n) => Some(n as int),
                    None => None,
                },
        ),
        summary.avg_adjusted_profit.count == number_of(
            rows,
            |row: OpportunityRow| row.adjusted_profit is Some,
        ),
        summary.avg_duration_ns.sum == total_of(
            rows,
            |row: OpportunityRow|
                match row.duration_ns {
                    Some(n) => Some(n as int),
                    None => None,
                },
        ),
        summary.avg_duration_ns.count == number_of(
            rows,
            |row: OpportunityRow| row.duration_ns is Some,
        ),
        summary.avg_ticks_valid.sum == total_of(
            rows,
            |row: OpportunityRow|
                Some(row.ticks_valid as int),
        ),
        summary.avg_ticks_valid.count == number_of(
            rows,
            |row: OpportunityRow| true,
        ),
{
    crate::analytics::all_are_counted(rows);
    lemma_count(
        rows,
        everything(),
        Tally::Confirmed,
        |row: OpportunityRow| row.state is Confirmed || row.state is ClosedProfitable,
    );
    lemma_count(
        rows,
        everything(),
        Tally::Slipped,
        |row: OpportunityRow| row.state is Slipped,
    );
    lemma_sum(
        rows,
        everything(),
        Measure::Profit,
        |row: OpportunityRow|
            Some(row.detected_profit as int),
    );
    lemma_present(
        rows,
        everything(),
        Measure::Profit,
        |row: OpportunityRow| true,
    );
    lemma_sum(
        rows,
        everything(),
        Measure::AdjustedProfit,
        |row: OpportunityRow|
            match row.adjusted_profit {
                Some(n) => Some(n as int),
                None => None,
            },
    );
    lemma_present(
        rows,
        everything(),
        Measure::AdjustedProfit,
        |row: OpportunityRow| row.adjusted_profit is Some,
    );
    lemma_sum(
        rows,
        everything(),
        Measure::Duration,
        |row: OpportunityRow|
            match row.duration_ns {
                Some(n) => Some(n as int),
                None => None,
            },
    );
    lemma_present(
        rows,
        everything(),
        Measure::Duration,
        |row: OpportunityRow| row.duration_ns is Some,
    );
    lemma_sum(
        rows,
        everything(),
        Measure::Ticks,
        |row: OpportunityRow|
            Some(row.ticks_valid as int),
    );
    lemma_present(
        rows,
        everything(),
        Measure::Ticks,
        |row: OpportunityRow| true,
    );
}

/// The analysis of slippage is over the rows that slipped: its means, how many slipped by
/// more than zero and how many did not, and its bounds, each of which is the slippage of
/// such a row and is passed by none.
pub proof fn slippage_is_over_what_slipped(analysis: SlippageAnalysis, rows: Seq<OpportunityRow>)
    requires
        analysis.sums_up(rows),
    ensures
        analysis.avg_slippage.sum == total_of(
            rows,
            |row: OpportunityRow|
                if row.state is Slipped {
                    match row.estimated_slippage {
                    Some(n) => Some(n as int),
                    None => None,
                }
                } else {
                    None
                },
        ),
        analysis.avg_slippage.count == number_of(
            rows,
            |row: OpportunityRow| row.state is Slipped && row.estimated_slippage is Some,
        ),
        analysis.avg_ticks_before_slip.sum == total_of(
            rows,
            |row: OpportunityRow|
                if row.state is Slipped {
                    Some(row.ticks_valid as int)
                } else {
                    None
                },
        ),
        analysis.avg_ticks_before_slip.count == number_of(
            rows,
            |row: OpportunityRow| row.state is Slipped,
        ),
        analysis.positive_slippage_count == number_of(
            rows,
            |row: OpportunityRow|
                row.state is Slipped && (row.estimated_slippage matches Some(s) && s > 0),
        ),
        analysis.zero_or_negative_count == number_of(
            rows,
            |row: OpportunityRow|
                row.state is Slipped && (row.estimated_slippage matches Some(s) && s <= 0),
        ),
        forall|i: int|
            0 <= i < rows.len() && (#[trigger] rows[i]).state is Slipped
                && rows[i].estimated_slippage is Some ==> analysis.max_slippage is Some
                && analysis.min_slippage is Some && analysis.min_slippage->0
                <= rows[i].estimated_slippage->0 <= analysis.max_slippage->0,
        analysis.max_slippage is Some ==> exists|i: int|
            0 <= i < rows.len() && (#[trigger] rows[i]).state is Slipped
                && rows[i].estimated_slippage == analysis.max_slippage,
        analysis.min_slippage is Some ==> exists|i: int|
            0 <= i < rows.len() && (#[trigger] rows[i]).state is Slipped
                && rows[i].estimated_slippage == analysis.min_slippage,
{
    lemma_count(
        rows,
        all_slipped(),
        Tally::PositiveSlippage,
        |row: OpportunityRow|
            row.state is Slipped && (row.estimated_slippage matches Some(s) && s > 0),
    );
    lemma_count(
        rows,
        all_slipped(),
        Tally::ZeroOrNegativeSlippage,
        |row: OpportunityRow|
            row.state is Slipped && (row.estimated_slippage matches Some(s) && s <= 0),
    );
    lemma_sum(
        rows,
        all_slipped(),
        Measure::Slippage,
        |row: OpportunityRow|
            if row.state is Slipped {
                match row.estimated_slippage {
                Some(n) => Some(n as int),
                None => None,
            }
            } else {
                None
            },
    );
    lemma_present(
        rows,
        all_slipped(),
        Measure::Slippage,
        |row: OpportunityRow| row.state is Slipped && row.estimated_slippage is Some,
    );
    lemma_sum(
        rows,
        all_slipped(),
        Measure::Ticks,
        |row: OpportunityRow|
            if row.state is Slipped {
                Some(row.ticks_valid as int)
            } else {
                None
            },
    );
    lemma_present(
        rows,
        all_slipped(),
        Measure::Ticks,
        |row: OpportunityRow| row.state is Slipped,
    );
    if let Some(v) = analysis.max_slippage {
        slippage_range_is_of_what_slipped(rows, v as int);
        let i = choose|i: int|
            0 <= i < rows.len() && (#[trigger] rows[i]).state is Slipped && slippage_of(rows[i])
                == Some(v as int);
        assert(rows[i].estimated_slippage == analysis.max_slippage);
    }
    if let Some(v) = analysis.min_slippage {
        slippage_range_is_of_what_slipped(rows, v as int);
        let i = choose|i: int|
            0 <= i < rows.len() && (#[trigger] rows[i]).state is Slipped && slippage_of(rows[i])
                == Some(v as int);
        assert(rows[i].estimated_slippage == analysis.min_slippage);
    }
    slippage_range_is_of_what_slipped(rows, 0);
}

/// The mean slippage of a strategy is over its own rows that slipped.
pub proof fn slippage_means_are_over_its_own_rows(rows: Seq<OpportunityRow>, name: Seq<char>)
    ensures
        sum(rows, slipped_of(Grouping::Strategy, name), Measure::Slippage) == slippage_total_for(
            rows,
            name,
        ),
        present(rows, slipped_of(Grouping::Strategy, name), Measure::Slippage)
            == slippage_number_for(rows, name),
{
    lemma_sum(
        rows,
        slipped_of(Grouping::Strategy, name),
        Measure::Slippage,
        measure_of(name),
    );
    lemma_present(
        rows,
        slipped_of(Grouping::Strategy, name),
        Measure::Slippage,
        measured_of(name),
    );
}

/// The statistics of a strategy are over its own rows: the counts by state, each mean over
/// the rows that have the number, and the mean slippage over those that slipped.
pub proof fn strategy_statistics_are_over_its_own_rows(
    stats: StrategyStats,
    rows: Seq<OpportunityRow>,
    known: Seq<GroupEstimates>,
    name: Seq<char>,
)
    requires
        stats.describes(rows, known, name),
    ensures
        stats.strategy_id@ == name,
        stats.total_opportunities == total_for(rows, name),
        stats.confirmed == lasted_for(rows, name),
        stats.slipped == slipped_for(rows, name),
        stats.avg_profit.sum == total_of(
            rows,
            |row: OpportunityRow|
                if row.strategy_id@ == name {
                    Some(row.detected_profit as int)
                } else {
                    None
                },
        ),
        stats.avg_profit.count == number_of(
            rows,
            |row: OpportunityRow| row.strategy_id@ == name,
        ),
        stats.avg_adjusted_profit.sum == total_of(
            rows,
            |row: OpportunityRow|
                if row.strategy_id@ == name {
                    match row.adjusted_profit {
                    Some(n) => Some(n as int),
                    None => None,
                }
                } else {
                    None
                },
        ),
        stats.avg_adjusted_profit.count == number_of(
            rows,
            |row: OpportunityRow| row.strategy_id@ == name && row.adjusted_profit is Some,
        ),
        stats.avg_duration_ns.sum == total_of(
            rows,
            |row: OpportunityRow|
                if row.strategy_id@ == name {
                    match row.duration_ns {
                    Some(n) => Some(n as int),
                    None => None,
                }
                } else {
                    None
                },
        ),
        stats.avg_duration_ns.count == number_of(
            rows,
            |row: OpportunityRow| row.strategy_id@ == name && row.duration_ns is Some,
        ),
        stats.avg_ticks_valid.sum == total_of(
            rows,
            |row: OpportunityRow|
                if row.strategy_id@ == name {
                    Some(row.ticks_valid as int)
                } else {
                    None
                },
        ),
        stats.avg_ticks_valid.count == number_of(
            rows,
            |row: OpportunityRow| row.strategy_id@ == name,
        ),
        stats.avg_slippage.sum == slippage_total_for(rows, name),
        stats.avg_slippage.count == slippage_number_for(rows, name),
{
    tallies_count_a_groups_own_rows(rows, name);
    slippage_means_are_over_its_own_rows(rows, name);
    lemma_sum(
        rows,
        group_of(Grouping::Strategy, name),
        Measure::Profit,
        |row: OpportunityRow|
            if row.strategy_id@ == name {
                Some(row.detected_profit as int)
            } else {
                None
            },
    );
    lemma_present(
        rows,
        group_of(Grouping::Strategy, name),
        Measure::Profit,
        |row: OpportunityRow| row.strategy_id@ == name,
    );
    lemma_sum(
        rows,
        group_of(Grouping::Strategy, name),
        Measure::AdjustedProfit,
        |row: OpportunityRow|
            if row.strategy_id@ == name {
                match row.adjusted_profit {
                Some(n) => Some(n as int),
                None => None,
            }
            } else {
                None
            },
    );
    lemma_present(
        rows,
        group_of(Grouping::Strategy, name),
        Measure::AdjustedProfit,
        |row: OpportunityRow| row.strategy_id@ == name && row.adjusted_profit is Some,
    );
    lemma_sum(
        rows,
        group_of(Grouping::Strategy, name),
        Measure::Duration,
        |row: OpportunityRow|
            if row.strategy_id@ == name {
                match row.duration_ns {
                Some(n) => Some(n as int),
                None => None,
            }
            } else {
                None
            },
    );
    lemma_present(
        rows,
        group_of(Grouping::Strategy, name),
        Measure::Duration,
        |row: OpportunityRow| row.strategy_id@ == name && row.duration_ns is Some,
    );
    lemma_sum(
        rows,
        group_of(Grouping::Strategy, name),
        Measure::Ticks,
        |row: OpportunityRow|
            if row.strategy_id@ == name {
                Some(row.ticks_valid as int)
            } else {
                None
            },
    );
    lemma_present(
        rows,
        group_of(Grouping::Strategy, name),
        Measure::Ticks,
        |row: OpportunityRow| row.strategy_id@ == name,
    );
}

/// The statistics of a kind are over its own rows.
pub proof fn kind_statistics_are_over_its_own_rows(
    stats: ArbTypeStats,
    rows: Seq<OpportunityRow>,
    known: Seq<GroupEstimates>,
    name: Seq<char>,
)
    requires
        stats.describes(rows, known, name),
    ensures
        stats.arb_type@ == name,
        stats.total_opportunities == number_of(
            rows,
            |row: OpportunityRow| row.arb_type@ == name,
        ),
        stats.avg_profit.sum == total_of(
            rows,
            |row: OpportunityRow|
                if row.arb_type@ == name {
                    Some(row.detected_profit as int)
                } else {
                    None
                },
        ),
        stats.avg_profit.count == number_of(
            rows,
            |row: OpportunityRow| row.arb_type@ == name,
        ),
{
    lemma_count(
        rows,
        group_of(Grouping::ArbType, name),
        Tally::All,
        |row: OpportunityRow| row.arb_type@ == name,
    );
    lemma_sum(
        rows,
        group_of(Grouping::ArbType, name),
        Measure::Profit,
        |row: OpportunityRow|
            if row.arb_type@ == name {
                Some(row.detected_profit as int)
            } else {
                None
            },
    );
    lemma_present(
        rows,
        group_of(Grouping::ArbType, name),
        Measure::Profit,
        |row: OpportunityRow| row.arb_type@ == name,
    );
}

/// The largest and the smallest slippage are those of a row that slipped, and no row that
/// slipped has a larger or a smaller one; there is none where no such row has one.
pub proof fn slippage_range_is_of_what_slipped(rows: Seq<OpportunityRow>, v: int)
    ensures
        is_largest(rows, all_slipped(), Measure::Slippage, v) <==> {
            &&& exists|i: int|
                0 <= i < rows.len() && (#[trigger] rows[i]).state is Slipped && slippage_of(rows[i])
                    == Some(v)
            &&& forall|i: int|
                0 <= i < rows.len() && (#[trigger] rows[i]).state is Slipped
                    && rows[i].estimated_slippage is Some ==> rows[i].estimated_slippage->0 <= v
        },
        is_smallest(rows, all_slipped(), Measure::Slippage, v) <==> {
            &&& exists|i: int|
                0 <= i < rows.len() && (#[trigger] rows[i]).state is Slipped && slippage_of(rows[i])
                    == Some(v)
            &&& forall|i: int|
                0 <= i < rows.len() && (#[trigger] rows[i]).state is Slipped
                    && rows[i].estimated_slippage is Some ==> rows[i].estimated_slippage->0 >= v
        },
        no_value(rows, all_slipped(), Measure::Slippage) <==> forall|i: int|
            0 <= i < rows.len() && (#[trigger] rows[i]).state is Slipped
                ==> rows[i].estimated_slippage is None,
{
    assert forall|i: int| 0 <= i < rows.len() implies (#[trigger] rows[i]).within(all_slipped())
        == (rows[i].state is Slipped) && rows[i].value(Measure::Slippage) == slippage_of(
        rows[i],
    ) by {
    }
    if is_largest(rows, all_slipped(), Measure::Slippage, v) || is_smallest(
        rows,
        all_slipped(),
        Measure::Slippage,
        v,
    ) {
        let i = choose|i: int|
            0 <= i < rows.len() && (#[trigger] rows[i]).within(all_slipped()) && rows[i].value(
                Measure::Slippage,
            ) == Some(v);
        assert(rows[i].state is Slipped && slippage_of(rows[i]) == Some(v));
    }
}

/// The groups of strategies are the strategies of the rows, each once.
pub proof fn groups_are_the_strategies_of_the_rows(rows: Seq<OpportunityRow>)
    ensures
        groups(rows, Grouping::Strategy).no_duplicates(),
        forall|i: int|
            0 <= i < rows.len() ==> groups(rows, Grouping::Strategy).contains(
                (#[trigger] rows[i]).strategy_id@,
            ),
        forall|g: int|
            0 <= g < groups(rows, Grouping::Strategy).len() ==> exists|i: int|
                0 <= i < rows.len() && (#[trigger] rows[i]).strategy_id@ == #[trigger] groups(
                    rows,
                    Grouping::Strategy,
                )[g],
{
    let all = labels(rows, Grouping::Strategy);
    let names = groups(rows, Grouping::Strategy);
    distinct_lists_each_once(all);
    assert forall|i: int| 0 <= i < rows.len() implies names.contains(
        (#[trigger] rows[i]).strategy_id@,
    ) by {
        assert(all[i] == rows[i].strategy_id@);
        assert(all.contains(rows[i].strategy_id@));
    }
    assert forall|g: int| 0 <= g < names.len() implies exists|i: int|
        0 <= i < rows.len() && (#[trigger] rows[i]).strategy_id@ == #[trigger] names[g] by {
        assert(names.contains(names[g]));
        assert(all.contains(names[g]));
        let i = choose|i: int| 0 <= i < all.len() && all[i] == names[g];
        assert(rows[i].strategy_id@ == names[g]);
    }
}

/// The groups of kinds are the kinds of the rows, each once.
pub proof fn groups_are_the_kinds_of_the_rows(rows: Seq<OpportunityRow>)
    ensures
        groups(rows, Grouping::ArbType).no_duplicates(),
        forall|i: int|
            0 <= i < rows.len() ==> groups(rows, Grouping::ArbType).contains(
                (#[trigger] rows[i]).arb_type@,
            ),
        forall|g: int|
            0 <= g < groups(rows, Grouping::ArbType).len() ==> exists|i: int|
                0 <= i < rows.len() && (#[trigger] rows[i]).arb_type@ == #[trigger] groups(
                    rows,
                    Grouping::ArbType,
                )[g],
{
    let all = labels(rows, Grouping::ArbType);
    let names = groups(rows, Grouping::ArbType);
    distinct_lists_each_once(all);
    assert forall|i: int| 0 <= i < rows.len() implies names.contains(
        (#[trigger] rows[i]).arb_type@,
    ) by {
        assert(all[i] == rows[i].arb_type@);
        assert(all.contains(rows[i].arb_type@));
    }
    assert forall|g: int| 0 <= g < names.len() implies exists|i: int|
        0 <= i < rows.len() && (#[trigger] rows[i]).arb_type@ == #[trigger] names[g] by {
        assert(names.contains(names[g]));
        assert(all.contains(names[g]));
        let i = choose|i: int| 0 <= i < all.len() && all[i] == names[g];
        assert(rows[i].arb_type@ == names[g]);
    }
}

/// Each text is listed where it first occurs: all that stands before it is listed before.
proof fn lemma_distinct_in_order(all: Seq<Seq<char>>, g: int) -> (i: int)
    requires
        0 <= g < distinct(all).len(),
    ensures
        0 <= i < all.len(),
        all[i] == distinct(all)[g],
        forall|k: int| 0 <= k < i ==> distinct(all).take(g).contains(#[trigger] all[k]),
    decreases all.len(),
{
    let rest = all.drop_last();
    let before = distinct(rest);
    if g < before.len() {
        let i = lemma_distinct_in_order(rest, g);
        assert(distinct(all).take(g) =~= before.take(g));
        assert forall|k: int| 0 <= k < i implies distinct(all).take(g).contains(
            #[trigger] all[k],
        ) by {
            assert(rest[k] == all[k]);
        }
        i
    } else {
        distinct_lists_each_once(rest);
        assert(distinct(all).take(g) =~= before);
        assert forall|k: int| 0 <= k < all.len() - 1 implies distinct(all).take(g).contains(
            #[trigger] all[k],
        ) by {
            assert(rest[k] == all[k]);
            assert(rest.contains(all[k]));
        }
        all.len() - 1
    }
}

/// The groups stand in the order in which the rows bring them up: where a group is first
/// brought up, every row before is of a group that stands before it.
pub proof fn groups_come_as_they_are_met(rows: Seq<OpportunityRow>, g: int)
    requires
        0 <= g < groups(rows, Grouping::Strategy).len(),
    ensures
        exists|i: int|
            0 <= i < rows.len() && (#[trigger] rows[i]).strategy_id@ == groups(
                rows,
                Grouping::Strategy,
            )[g] && forall|k: int|
                0 <= k < i ==> groups(rows, Grouping::Strategy).take(g).contains(
                    (#[trigger] rows[k]).strategy_id@,
                ),
{
    let all = labels(rows, Grouping::Strategy);
    let i = lemma_distinct_in_order(all, g);
    assert(rows[i].strategy_id@ == all[i]);
    assert forall|k: int| 0 <= k < i implies groups(rows, Grouping::Strategy).take(g).contains(
        (#[trigger] rows[k]).strategy_id@,
    ) by {
        assert(all[k] == rows[k].strategy_id@);
    }
}

/// A strategy with rows is among the groups.
proof fn lemma_counted_is_a_group(rows: Seq<OpportunityRow>, name: Seq<char>)
    requires
        total_for(rows, name) > 0,
    ensures
        groups(rows, Grouping::Strategy).contains(name),
{
    groups_are_the_strategies_of_the_rows(rows);
    lemma_some_row(rows, name);
    let i = choose|i: int| 0 <= i < rows.len() && (#[trigger] rows[i]).strategy_id@ == name;
    assert(groups(rows, Grouping::Strategy).contains(rows[i].strategy_id@));
}

/// What is counted is there.
proof fn lemma_some_row(rows: Seq<OpportunityRow>, name: Seq<char>)
    requires
        total_for(rows, name) > 0,
    ensures
        exists|i: int| 0 <= i < rows.len() && (#[trigger] rows[i]).strategy_id@ == name,
    decreases rows.len(),
{
    let meets = of_strategy(name);
    if rows.len() == 0 {
        lemma_filter_none(rows, meets);
    } else {
        lemma_filter_step(rows, meets);
        if rows.last().strategy_id@ == name {
            assert(rows[rows.len() - 1].strategy_id@ == name);
        } else {
            lemma_some_row(rows.drop_last(), name);
            let i = choose|i: int|
                0 <= i < rows.drop_last().len() && (#[trigger] rows.drop_last()[i]).strategy_id@
                    == name;
            assert(rows[i].strategy_id@ == name);
        }
    }
}

/// No more opportunities of a strategy slipped than there are.
proof fn lemma_slipped_are_rows(rows: Seq<OpportunityRow>, name: Seq<char>)
    ensures
        slipped_for(rows, name) <= total_for(rows, name),
    decreases rows.len(),
{
    let all = of_strategy(name);
    let gone = slipping_of(name);
    if rows.len() == 0 {
        lemma_filter_none(rows, all);
        lemma_filter_none(rows, gone);
    } else {
        lemma_filter_step(rows, all);
        lemma_filter_step(rows, gone);
        lemma_slipped_are_rows(rows.drop_last(), name);
    }
}

/// The strategy with the best rate has more than ten opportunities, and no strategy with
/// more than ten has a higher share of opportunities that lasted, nor one that comes
/// before it as high a share.
pub proof fn best_rate_is_the_highest_share(rows: Seq<OpportunityRow>, i: int, other: Seq<char>)
    requires
        has_best_rate(rows, i),
    ensures
        ({
            let best = groups(rows, Grouping::Strategy)[i];
            &&& total_for(rows, best) > 10
            &&& total_for(rows, other) > 10 ==> lasted_for(rows, other) * total_for(rows, best)
                <= lasted_for(rows, best) * total_for(rows, other)
            &&& forall|j: int|
                0 <= j < i && other == #[trigger] groups(rows, Grouping::Strategy)[j] && total_for(
                    rows,
                    other,
                ) > 10 ==> lasted_for(rows, other) * total_for(rows, best) < lasted_for(rows, best)
                    * total_for(rows, other)
        }),
{
    let names = groups(rows, Grouping::Strategy);
    tallies_count_a_groups_own_rows(rows, names[i]);
    tallies_count_a_groups_own_rows(rows, other);
    if total_for(rows, other) > 10 {
        lemma_counted_is_a_group(rows, other);
        let j = choose|j: int| 0 <= j < names.len() && names[j] == other;
        assert(rate_counts(rows, names[j]));
    }
}

/// Where no group comes into question for its rate, no strategy has more than ten
/// opportunities.
pub proof fn no_rate_where_none_has_more_than_ten(rows: Seq<OpportunityRow>, other: Seq<char>)
    requires
        forall|j: int|
            0 <= j < groups(rows, Grouping::Strategy).len() ==> !rate_counts(
                rows,
                #[trigger] groups(rows, Grouping::Strategy)[j],
            ),
    ensures
        total_for(rows, other) <= 10,
{
    if total_for(rows, other) > 10 {
        tallies_count_a_groups_own_rows(rows, other);
        lemma_counted_is_a_group(rows, other);
        let names = groups(rows, Grouping::Strategy);
        let j = choose|j: int| 0 <= j < names.len() && names[j] == other;
        assert(!rate_counts(rows, groups(rows, Grouping::Strategy)[j]));
    }
}

/// A strategy comes into question for its rate exactly where it has more than ten
/// opportunities.
pub proof fn a_rate_takes_more_than_ten(rows: Seq<OpportunityRow>, name: Seq<char>)
    ensures
        rate_counts(rows, name) <==> total_for(rows, name) > 10,
{
    tallies_count_a_groups_own_rows(rows, name);
}

/// The strategy with the lowest slippage slipped more than five times, and no strategy
/// that did has a lower mean slippage, nor one that comes before it as low a mean.
pub proof fn lowest_slippage_is_the_lowest_mean(
    rows: Seq<OpportunityRow>,
    i: int,
    other: Seq<char>,
)
    requires
        has_lowest_slippage(rows, i),
    ensures
        ({
            let best = groups(rows, Grouping::Strategy)[i];
            &&& slipped_for(rows, best) > 5
            &&& slipped_for(rows, other) > 5 ==> slippage_total_for(rows, best)
                * slippage_number_for(rows, other) <= slippage_total_for(rows, other)
                * slippage_number_for(rows, best)
            &&& forall|j: int|
                0 <= j < i && other == #[trigger] groups(rows, Grouping::Strategy)[j]
                    && slipped_for(rows, other) > 5 ==> slippage_total_for(rows, best)
                    * slippage_number_for(rows, other) < slippage_total_for(rows, other)
                    * slippage_number_for(rows, best)
        }),
{
    let names = groups(rows, Grouping::Strategy);
    tallies_count_a_groups_own_rows(rows, names[i]);
    tallies_count_a_groups_own_rows(rows, other);
    slippage_means_are_over_its_own_rows(rows, names[i]);
    slippage_means_are_over_its_own_rows(rows, other);
    if slipped_for(rows, other) > 5 {
        lemma_slipped_are_rows(rows, other);
        lemma_counted_is_a_group(rows, other);
        let j = choose|j: int| 0 <= j < names.len() && names[j] == other;
        assert(slippage_counts(rows, names[j]));
    }
}

/// A strategy comes into question for its slippage exactly where it slipped more than
/// five times; nobody is named where one of those has no slippage written down.
pub proof fn a_slippage_takes_more_than_five(rows: Seq<OpportunityRow>, name: Seq<char>)
    ensures
        slippage_counts(rows, name) <==> slipped_for(rows, name) > 5,
        some_slippage_missing(rows) <==> exists|other: Seq<char>|
            #[trigger] slipped_for(rows, other) > 5 && slippage_number_for(rows, other) == 0,
{
    let names = groups(rows, Grouping::Strategy);
    tallies_count_a_groups_own_rows(rows, name);
    if some_slippage_missing(rows) {
        let i = choose|i: int|
            0 <= i < names.len() && slippage_counts(rows, #[trigger] names[i])
                && crate::analytics::slippage_present(rows, names[i]) == 0;
        tallies_count_a_groups_own_rows(rows, names[i]);
        slippage_means_are_over_its_own_rows(rows, names[i]);
        assert(slipped_for(rows, names[i]) > 5);
    }
    if exists|other: Seq<char>|
        #[trigger] slipped_for(rows, other) > 5 && slippage_number_for(rows, other) == 0 {
        let other = choose|other: Seq<char>|
            #[trigger] slipped_for(rows, other) > 5 && slippage_number_for(rows, other) == 0;
        tallies_count_a_groups_own_rows(rows, other);
        slippage_means_are_over_its_own_rows(rows, other);
        lemma_slipped_are_rows(rows, other);
        lemma_counted_is_a_group(rows, other);
        let i = choose|i: int| 0 <= i < names.len() && names[i] == other;
        assert(slippage_counts(rows, names[i]));
    }
}

/// Whether a double is no lower than another, from their bits: a sign, and a magnitude
/// that grows with the number. What there is none of is lower than all.
pub open spec fn no_lower(a: Option<u64>, b: Option<u64>) -> bool {
    match (a, b) {
        (_, None) => true,
        (None, Some(_)) => false,
        (Some(x), Some(y)) => if x < 0x8000_0000_0000_0000 && y < 0x8000_0000_0000_0000 {
            x >= y
        } else if x < 0x8000_0000_0000_0000 {
            true
        } else if y < 0x8000_0000_0000_0000 {
            x == 0x8000_0000_0000_0000 && y == 0
        } else {
            x <= y
        },
    }
}

/// The first of a list of doubles are given highest first, none that is left out is
/// higher, and as many are given as asked for, where there are as many.
pub proof fn highest_come_first(
    values: Seq<Option<u64>>,
    picked: Seq<usize>,
    limit: nat,
    i: int,
    x: int,
)
    requires
        are_lowest(descending_keys(values), picked, limit),
        0 <= i < picked.len(),
        0 <= x < values.len(),
        !among(picked, x) || exists|j: int| i < j < picked.len() && #[trigger] picked[j] == x,
    ensures
        picked[i] < values.len(),
        no_lower(values[picked[i] as int], values[x]),
        picked.len() == limit || picked.len() == values.len(),
{
    let keys = descending_keys(values);
    assert(keys[x] == descending(values[x]));
    assert(keys[picked[i] as int] == descending(values[picked[i] as int]));
    if among(picked, x) {
        let j = choose|j: int| i < j < picked.len() && #[trigger] picked[j] == x;
        assert(precedes(keys, picked[i] as int, picked[j] as int));
    } else {
        assert(precedes(keys, picked[i] as int, x));
    }
}

/// Strategies come by expected profit: none has a lower one than a strategy after it.
pub proof fn strategies_come_highest_first(
    rows: Seq<OpportunityRow>,
    known: Seq<GroupEstimates>,
    order: Seq<usize>,
    limit: nat,
    i: int,
    x: int,
)
    requires
        are_lowest(profit_keys(rows, known), order, limit),
        0 <= i < order.len(),
        0 <= x < groups(rows, Grouping::Strategy).len(),
        !among(order, x) || exists|j: int| i < j < order.len() && #[trigger] order[j] == x,
    ensures
        order[i] < groups(rows, Grouping::Strategy).len(),
        no_lower(
            estimates_of(
                known,
                groups(rows, Grouping::Strategy)[order[i] as int],
            ).expected_profit_bits,
            estimates_of(known, groups(rows, Grouping::Strategy)[x]).expected_profit_bits,
        ),
{
    let names = groups(rows, Grouping::Strategy);
    let keys = profit_keys(rows, known);
    assert(keys[x] == descending(estimates_of(known, names[x]).expected_profit_bits));
    assert(keys[order[i] as int] == descending(
        estimates_of(known, names[order[i] as int]).expected_profit_bits,
    ));
    if among(order, x) {
        let j = choose|j: int| i < j < order.len() && #[trigger] order[j] == x;
        assert(precedes(keys, order[i] as int, order[j] as int));
    } else {
        assert(precedes(keys, order[i] as int, x));
    }
}

/// Kinds come by how often they came: none came less often than a kind after it.
pub proof fn kinds_come_most_often_first(
    rows: Seq<OpportunityRow>,
    order: Seq<usize>,
    limit: nat,
    i: int,
    j: int,
)
    requires
        are_lowest(frequency_keys(rows), order, limit),
        rows.len() <= u64::MAX,
        0 <= i < j < order.len(),
    ensures
        ({
            let names = groups(rows, Grouping::ArbType);
            let first = names[order[i] as int];
            let second = names[order[j] as int];
            number_of(rows, |row: OpportunityRow| row.arb_type@ == first) >= number_of(
                rows,
                |row: OpportunityRow| row.arb_type@ == second,
            )
        }),
{
    let names = groups(rows, Grouping::ArbType);
    let first = names[order[i] as int];
    let second = names[order[j] as int];
    let keys = frequency_keys(rows);
    tallies_count_a_groups_own_rows(rows, first);
    tallies_count_a_groups_own_rows(rows, second);
    lemma_count_bound(rows, group_of(Grouping::ArbType, first));
    lemma_count_bound(rows, group_of(Grouping::ArbType, second));
    assert(precedes(keys, order[i] as int, order[j] as int));
    assert(keys[order[i] as int] == -count(rows, group_of(Grouping::ArbType, first), Tally::All));
    assert(keys[order[j] as int] == -count(rows, group_of(Grouping::ArbType, second), Tally::All));
}

/// No more is counted than there is.
proof fn lemma_count_bound(rows: Seq<OpportunityRow>, scope: Scope)
    ensures
        count(rows, scope, Tally::All) <= rows.len(),
    decreases rows.len(),
{
    if rows.len() > 0 {
        lemma_count_bound(rows.drop_last(), scope);
    }
}

/// What is known in doubles of a group is what the first entry of its name says; nothing
/// is known where no entry has its name.
pub proof fn estimates_are_those_of_the_name(
    known: Seq<GroupEstimates>,
    name: Seq<char>,
    i: int,
)
    requires
        0 <= i <= known.len(),
        forall|j: int| 0 <= j < i ==> (#[trigger] known[j]).name@ != name,
    ensures
        i < known.len() && known[i].name@ == name ==> estimates_of(known, name)
            == known[i].estimates,
        i == known.len() ==> estimates_of(known, name).expected_profit_bits is None
            && estimates_of(known, name).avg_fill_probability_bits is None,
    decreases i,
{
    if i > 0 {
        assert(known[0].name@ != name);
        assert forall|j: int| 0 <= j < i - 1 implies (#[trigger] known.drop_first()[j]).name@
            != name by {
            assert(known.drop_first()[j] == known[j + 1]);
        }
        estimates_are_those_of_the_name(known.drop_first(), name, i - 1);
        if i < known.len() {
            assert(known.drop_first()[i - 1] == known[i]);
        }
    }
}

} // verus!
