//! Statistics over stored opportunities: per session, per strategy and per kind of
//! arbitrage.
//!
//! A mean is kept as an exact sum and a count. What is computed in doubles, such as
//! the profit weighted by the fill probability, is brought along as bits and only
//! ordered here.

use crate::analytics_laws::{
    best_rate_is_the_highest_share, lasted_for, lowest_slippage_is_the_lowest_mean,
    no_rate_where_none_has_more_than_ten, slippage_means_are_over_its_own_rows,
    slippage_number_for, slippage_total_for, slipped_for, tallies_count_a_groups_own_rows,
    total_for,
};
use crate::opportunity::OpportunityState;
use crate::ranking::{are_lowest, lowest};
use crate::text::{same_text, texts};
use vstd::prelude::*;
use vstd::string::*;

verus! {

/// A stored opportunity, as far as the statistics read it.
#[derive(Debug)]
pub struct OpportunityRow {
    pub strategy_id: String,
    pub arb_type: String,
    pub state: OpportunityState,
    pub detected_profit: i32,
    pub adjusted_profit: Option<i32>,
    pub estimated_slippage: Option<i32>,
    pub ticks_valid: u32,
    pub duration_ns: Option<i64>,
}

/// A number of a stored opportunity that can be summed.
#[derive(Debug, Clone, Copy, PartialEq, Eq, Structural)]
pub enum Measure {
    Profit,
    AdjustedProfit,
    Slippage,
    Ticks,
    Duration,
}

/// What is counted.
#[derive(Debug, Clone, Copy, PartialEq, Eq, Structural)]
pub enum Tally {
    /// Every opportunity.
    All,
    /// Those that were confirmed, and those that were closed profitably.
    Confirmed,
    /// Those that slipped.
    Slipped,
    /// Those whose slippage is above zero.
    PositiveSlippage,
    /// Those whose slippage is zero or below.
    ZeroOrNegativeSlippage,
}

/// What opportunities are grouped by.
#[derive(Debug, Clone, Copy, PartialEq, Eq, Structural)]
pub enum Grouping {
    Strategy,
    ArbType,
}

/// Which opportunities are looked at: those of one group, where one is named, and
/// only those that slipped, where that is asked.
pub struct Scope {
    pub group: Option<(Grouping, Seq<char>)>,
    pub slipped_only: bool,
}

/// Which opportunities are looked at.
#[derive(Debug)]
pub struct Filter {
    pub group: Option<(Grouping, String)>,
    pub slipped_only: bool,
}

impl View for Filter {
    type V = Scope;

    open spec fn view(&self) -> Scope {
        Scope {
            group: match self.group {
                Some((grouping, name)) => Some((grouping, name@)),
                None => None,
            },
            slipped_only: self.slipped_only,
        }
    }
}

/// All opportunities.
pub open spec fn everything() -> Scope {
    Scope { group: None, slipped_only: false }
}

/// All that slipped.
pub open spec fn all_slipped() -> Scope {
    Scope { group: None, slipped_only: true }
}

/// Those of one group.
pub open spec fn group_of(grouping: Grouping, name: Seq<char>) -> Scope {
    Scope { group: Some((grouping, name)), slipped_only: false }
}

/// Those of one group that slipped.
pub open spec fn slipped_of(grouping: Grouping, name: Seq<char>) -> Scope {
    Scope { group: Some((grouping, name)), slipped_only: true }
}

impl OpportunityRow {
    /// The name of the group that this opportunity belongs to.
    pub open spec fn label(self, grouping: Grouping) -> Seq<char> {
        match grouping {
            Grouping::Strategy => self.strategy_id@,
            Grouping::ArbType => self.arb_type@,
        }
    }

    /// The number that is summed, where there is one.
    pub open spec fn value(self, measure: Measure) -> Option<int> {
        match measure {
            Measure::Profit => Some(self.detected_profit as int),
            Measure::AdjustedProfit => match self.adjusted_profit {
                Some(v) => Some(v as int),
                None => None,
            },
            Measure::Slippage => match self.estimated_slippage {
                Some(v) => Some(v as int),
                None => None,
            },
            Measure::Ticks => Some(self.ticks_valid as int),
            Measure::Duration => match self.duration_ns {
                Some(v) => Some(v as int),
                None => None,
            },
        }
    }

    /// Whether this opportunity is counted.
    pub open spec fn counts(self, tally: Tally) -> bool {
        match tally {
            Tally::All => true,
            Tally::Confirmed => self.state is Confirmed || self.state is ClosedProfitable,
            Tally::Slipped => self.state is Slipped,
            Tally::PositiveSlippage => self.estimated_slippage is Some
                && self.estimated_slippage->0 > 0,
            Tally::ZeroOrNegativeSlippage => self.estimated_slippage is Some
                && self.estimated_slippage->0 <= 0,
        }
    }

    /// Whether this opportunity is looked at.
    pub open spec fn within(self, scope: Scope) -> bool {
        &&& scope.slipped_only ==> self.state is Slipped
        &&& match scope.group {
            Some((grouping, name)) => self.label(grouping) == name,
            None => true,
        }
    }

    /// The name of the group that this opportunity belongs to.
    fn label_text(&self, grouping: Grouping) -> (name: &str)
        ensures
            name@ == self.label(grouping),
    {
        match grouping {
            Grouping::Strategy => self.strategy_id.as_str(),
            Grouping::ArbType => self.arb_type.as_str(),
        }
    }

    /// The number that is summed, where there is one.
    fn read(&self, measure: Measure) -> (value: Option<i64>)
        ensures
            match value {
                Some(v) => self.value(measure) == Some(v as int),
                None => self.value(measure) is None,
            },
    {
        match measure {
            Measure::Profit => Some(self.detected_profit as i64),
            Measure::AdjustedProfit => match self.adjusted_profit {
                Some(v) => Some(v as i64),
                None => None,
            },
            Measure::Slippage => match self.estimated_slippage {
                Some(v) => Some(v as i64),
                None => None,
            },
            Measure::Ticks => Some(self.ticks_valid as i64),
            Measure::Duration => self.duration_ns,
        }
    }

    /// Whether this opportunity is counted.
    fn is_counted(&self, tally: Tally) -> (yes: bool)
        ensures
            yes == self.counts(tally),
    {
        match tally {
            Tally::All => true,
            Tally::Confirmed => match self.state {
                OpportunityState::Confirmed => true,
                OpportunityState::ClosedProfitable => true,
                _ => false,
            },
            Tally::Slipped => match self.state {
                OpportunityState::Slipped => true,
                _ => false,
            },
            Tally::PositiveSlippage => match self.estimated_slippage {
                Some(v) => v > 0,
                None => false,
            },
            Tally::ZeroOrNegativeSlippage => match self.estimated_slippage {
                Some(v) => v <= 0,
                None => false,
            },
        }
    }

    /// Whether this opportunity is looked at.
    fn is_within(&self, filter: &Filter) -> (yes: bool)
        ensures
            yes == self.within(filter@),
    {
        if filter.slipped_only && !self.is_counted(Tally::Slipped) {
            return false;
        }
        match &filter.group {
            Some((grouping, name)) => same_text(self.label_text(*grouping), name.as_str()),
            None => true,
        }
    }
}

/// How many opportunities within the scope are counted.
pub open spec fn count(rows: Seq<OpportunityRow>, scope: Scope, tally: Tally) -> nat
    decreases rows.len(),
{
    if rows.len() == 0 {
        0
    } else {
        count(rows.drop_last(), scope, tally) + if rows.last().within(scope) && rows.last().counts(
            tally,
        ) {
            1nat
        } else {
            0nat
        }
    }
}

/// How many opportunities within the scope have a value.
pub open spec fn present(rows: Seq<OpportunityRow>, scope: Scope, measure: Measure) -> nat
    decreases rows.len(),
{
    if rows.len() == 0 {
        0
    } else {
        present(rows.drop_last(), scope, measure) + if rows.last().within(scope)
            && rows.last().value(measure) is Some {
            1nat
        } else {
            0nat
        }
    }
}

/// The sum of the values within the scope.
pub open spec fn sum(rows: Seq<OpportunityRow>, scope: Scope, measure: Measure) -> int
    decreases rows.len(),
{
    if rows.len() == 0 {
        0
    } else {
        sum(rows.drop_last(), scope, measure) + if rows.last().within(scope)
            && rows.last().value(measure) is Some {
            rows.last().value(measure)->0
        } else {
            0
        }
    }
}

/// A mean, as the sum of the values and their number; there is no mean of none.
#[derive(Debug, Clone, Copy, PartialEq, Eq, Structural)]
pub struct Mean {
    pub sum: i128,
    pub count: u64,
}

impl Mean {
    /// Whether this is the mean of a measure within a scope.
    pub open spec fn is_of(
        self,
        rows: Seq<OpportunityRow>,
        scope: Scope,
        measure: Measure,
    ) -> bool {
        self.sum == sum(rows, scope, measure) && self.count == present(rows, scope, measure)
    }
}

/// How many opportunities within the scope are counted.
pub fn tally_rows(rows: &Vec<OpportunityRow>, filter: &Filter, tally: Tally) -> (n: u64)
    ensures
        n == count(rows@, filter@, tally),
        n <= rows@.len(),
{
    let mut n: u64 = 0;
    let mut i: usize = 0;
    while i < rows.len()
        invariant
            i <= rows@.len(),
            n == count(rows@.take(i as int), filter@, tally),
            n <= i,
        decreases rows@.len() - i,
    {
        assert(rows@.take(i + 1).drop_last() =~= rows@.take(i as int));
        if rows[i].is_within(filter) && rows[i].is_counted(tally) {
            n = n + 1;
        }
        i += 1;
    }
    assert(rows@.take(i as int) =~= rows@);
    n
}

/// The mean of a measure within a scope.
pub fn mean(rows: &Vec<OpportunityRow>, filter: &Filter, measure: Measure) -> (mean: Mean)
    ensures
        mean.is_of(rows@, filter@, measure),
        mean.count <= rows@.len(),
{
    let mut total: i128 = 0;
    let mut n: u64 = 0;
    let mut i: usize = 0;
    while i < rows.len()
        invariant
            i <= rows@.len(),
            total == sum(rows@.take(i as int), filter@, measure),
            n == present(rows@.take(i as int), filter@, measure),
            n <= i,
            -0x8000_0000_0000_0000 * i <= total <= 0x8000_0000_0000_0000 * i,
        decreases rows@.len() - i,
    {
        assert(rows@.take(i + 1).drop_last() =~= rows@.take(i as int));
        if rows[i].is_within(filter) {
            if let Some(v) = rows[i].read(measure) {
                assert(i < 0x1_0000_0000_0000_0000);
                total = total + v as i128;
                n = n + 1;
            }
        }
        i += 1;
    }
    assert(rows@.take(i as int) =~= rows@);
    Mean { sum: total, count: n }
}

/// Whether `v` is the largest value within the scope.
pub open spec fn is_largest(
    rows: Seq<OpportunityRow>,
    scope: Scope,
    measure: Measure,
    v: int,
) -> bool {
    &&& exists|i: int|
        0 <= i < rows.len() && (#[trigger] rows[i]).within(scope) && rows[i].value(measure)
            == Some(v)
    &&& forall|i: int|
        0 <= i < rows.len() && (#[trigger] rows[i]).within(scope) && rows[i].value(
            measure,
        ) is Some ==> rows[i].value(measure)->0 <= v
}

/// Whether `v` is the smallest value within the scope.
pub open spec fn is_smallest(
    rows: Seq<OpportunityRow>,
    scope: Scope,
    measure: Measure,
    v: int,
) -> bool {
    &&& exists|i: int|
        0 <= i < rows.len() && (#[trigger] rows[i]).within(scope) && rows[i].value(measure)
            == Some(v)
    &&& forall|i: int|
        0 <= i < rows.len() && (#[trigger] rows[i]).within(scope) && rows[i].value(
            measure,
        ) is Some ==> v <= rows[i].value(measure)->0
}

/// Whether nothing within the scope has a value.
pub open spec fn no_value(rows: Seq<OpportunityRow>, scope: Scope, measure: Measure) -> bool {
    forall|i: int|
        0 <= i < rows.len() && (#[trigger] rows[i]).within(scope) ==> rows[i].value(
            measure,
        ) is None
}

/// The smallest and the largest slippage of the opportunities that slipped.
fn slippage_range(rows: &Vec<OpportunityRow>) -> (range: Option<(i32, i32)>)
    ensures
        match range {
            Some((low, high)) => is_smallest(rows@, all_slipped(), Measure::Slippage, low as int)
                && is_largest(rows@, all_slipped(), Measure::Slippage, high as int),
            None => no_value(rows@, all_slipped(), Measure::Slippage),
        },
{
    let filter = Filter { group: None, slipped_only: true };
    let mut range: Option<(i32, i32)> = None;
    let mut i: usize = 0;
    while i < rows.len()
        invariant
            i <= rows@.len(),
            filter@ == all_slipped(),
            match range {
                Some((low, high)) => is_smallest(
                    rows@.take(i as int),
                    all_slipped(),
                    Measure::Slippage,
                    low as int,
                ) && is_largest(
                    rows@.take(i as int),
                    all_slipped(),
                    Measure::Slippage,
                    high as int,
                ),
                None => no_value(rows@.take(i as int), all_slipped(), Measure::Slippage),
            },
        decreases rows@.len() - i,
    {
        let ghost seen = rows@.take(i as int);
        let ghost next = rows@.take(i + 1);
        assert(next =~= seen.push(rows@[i as int]));
        assert(next[i as int] == rows@[i as int]);
        assert(forall|j: int| 0 <= j < i ==> #[trigger] next[j] == seen[j]);
        assert(forall|j: int| 0 <= j < i ==> #[trigger] seen[j] == next[j]);
        if rows[i].is_within(&filter) {
            if let Some(v) = rows[i].estimated_slippage {
                range = match range {
                    Some((low, high)) => {
                        let new_low: i32 = if v < low {
                            v
                        } else {
                            low
                        };
                        let new_high: i32 = if v > high {
                            v
                        } else {
                            high
                        };
                        Some((new_low, new_high))
                    },
                    None => Some((v, v)),
                };
            }
        }
        i += 1;
    }
    assert(rows@.take(i as int) =~= rows@);
    range
}

/// Why statistics cannot be given.
#[derive(Debug, Clone, Copy, PartialEq, Eq, Structural)]
pub enum AnalyticsError {
    /// There are no opportunities to summarise.
    NoOpportunities,
    /// A count does not fit in 32 bits.
    TooMany,
}

/// What is computed in doubles over a group of opportunities: each is the bits of
/// an IEEE 754 double, where there is one.
#[derive(Debug, Clone, Copy, PartialEq, Eq, Structural)]
pub struct Estimates {
    /// The mean of the estimated fill probability.
    pub avg_fill_probability_bits: Option<u64>,
    /// The sum of the adjusted profits, each times its fill probability.
    pub expected_profit_bits: Option<u64>,
}

/// The summary of a session.
#[derive(Debug)]
pub struct SessionSummary {
    pub session_id: String,
    pub total_opportunities: u32,
    pub confirmed: u32,
    pub slipped: u32,
    pub avg_profit: Mean,
    pub avg_adjusted_profit: Mean,
    pub avg_duration_ns: Mean,
    pub avg_ticks_valid: Mean,
    pub estimates: Estimates,
}

impl SessionSummary {
    /// Whether this sums up these opportunities.
    pub open spec fn sums_up(self, rows: Seq<OpportunityRow>) -> bool {
        &&& self.total_opportunities == count(rows, everything(), Tally::All)
        &&& self.confirmed == count(rows, everything(), Tally::Confirmed)
        &&& self.slipped == count(rows, everything(), Tally::Slipped)
        &&& self.avg_profit.is_of(rows, everything(), Measure::Profit)
        &&& self.avg_adjusted_profit.is_of(rows, everything(), Measure::AdjustedProfit)
        &&& self.avg_duration_ns.is_of(rows, everything(), Measure::Duration)
        &&& self.avg_ticks_valid.is_of(rows, everything(), Measure::Ticks)
    }

    /// The sum of the detected profits.
    pub fn total_theoretical_profit(&self) -> (total: i128)
        ensures
            total == self.avg_profit.sum,
    {
        self.avg_profit.sum
    }
}

/// How the opportunities slipped.
#[derive(Debug, Clone, Copy, PartialEq, Eq, Structural)]
pub struct SlippageAnalysis {
    pub avg_slippage: Mean,
    pub max_slippage: Option<i32>,
    pub min_slippage: Option<i32>,
    pub positive_slippage_count: u32,
    pub zero_or_negative_count: u32,
    pub avg_ticks_before_slip: Mean,
}

impl SlippageAnalysis {
    /// Whether this tells how these opportunities slipped.
    pub open spec fn sums_up(self, rows: Seq<OpportunityRow>) -> bool {
        &&& self.avg_slippage.is_of(rows, all_slipped(), Measure::Slippage)
        &&& match self.max_slippage {
            Some(v) => is_largest(rows, all_slipped(), Measure::Slippage, v as int),
            None => no_value(rows, all_slipped(), Measure::Slippage),
        }
        &&& match self.min_slippage {
            Some(v) => is_smallest(rows, all_slipped(), Measure::Slippage, v as int),
            None => no_value(rows, all_slipped(), Measure::Slippage),
        }
        &&& self.positive_slippage_count == count(rows, all_slipped(), Tally::PositiveSlippage)
        &&& self.zero_or_negative_count == count(
            rows,
            all_slipped(),
            Tally::ZeroOrNegativeSlippage,
        )
        &&& self.avg_ticks_before_slip.is_of(rows, all_slipped(), Measure::Ticks)
    }
}

/// What each of a list of texts is, once, in the order of first appearance.
pub open spec fn distinct(labels: Seq<Seq<char>>) -> Seq<Seq<char>>
    decreases labels.len(),
{
    if labels.len() == 0 {
        Seq::empty()
    } else {
        let before = distinct(labels.drop_last());
        if before.contains(labels.last()) {
            before
        } else {
            before.push(labels.last())
        }
    }
}

/// The name of each opportunity's group.
pub open spec fn labels(rows: Seq<OpportunityRow>, grouping: Grouping) -> Seq<Seq<char>> {
    Seq::new(rows.len(), |i: int| rows[i].label(grouping))
}

/// The groups that the opportunities fall into, in the order of first appearance.
pub open spec fn groups(rows: Seq<OpportunityRow>, grouping: Grouping) -> Seq<Seq<char>> {
    distinct(labels(rows, grouping))
}

/// The groups that the opportunities fall into, in the order of first appearance.
pub fn group_names(rows: &Vec<OpportunityRow>, grouping: Grouping) -> (names: Vec<String>)
    ensures
        texts(names@) == groups(rows@, grouping),
{
    let mut names: Vec<String> = Vec::new();
    let mut i: usize = 0;
    assert(texts(names@) =~= distinct(labels(rows@.take(0), grouping)));
    while i < rows.len()
        invariant
            i <= rows@.len(),
            texts(names@) == distinct(labels(rows@.take(i as int), grouping)),
        decreases rows@.len() - i,
    {
        let label: &str = rows[i].label_text(grouping);
        let mut known: bool = false;
        let mut k: usize = 0;
        while k < names.len() && !known
            invariant
                k <= names@.len(),
                known ==> texts(names@).contains(label@),
                !known ==> forall|j: int| 0 <= j < k ==> (#[trigger] names@[j])@ != label@,
            decreases names@.len() - k + (if known { 0int } else { 1int }),
        {
            if same_text(names[k].as_str(), label) {
                assert(texts(names@)[k as int] == label@);
                known = true;
            } else {
                k += 1;
            }
        }
        proof {
            let next = labels(rows@.take(i + 1), grouping);
            assert(next.drop_last() =~= labels(rows@.take(i as int), grouping));
            assert(next.last() == label@);
            if !known {
                assert(!texts(names@).contains(label@)) by {
                    if texts(names@).contains(label@) {
                        let j = choose|j: int|
                            0 <= j < texts(names@).len() && texts(names@)[j] == label@;
                        assert(names@[j]@ == label@);
                    }
                }
            }
        }
        if !known {
            let ghost before = texts(names@);
            names.push(label.to_owned());
            assert(texts(names@) =~= before.push(label@));
        }
        i += 1;
    }
    assert(rows@.take(i as int) =~= rows@);
    names
}

/// The place of a double in the order of doubles, from its bits. Both zeros have
/// the same place.
pub open spec fn place_of(bits: u64) -> int {
    if bits < 0x8000_0000_0000_0000 {
        bits as int
    } else {
        0x8000_0000_0000_0000 - bits
    }
}

/// The key by which the highest double comes first, and what has none last.
pub open spec fn descending(bits: Option<u64>) -> i128 {
    match bits {
        Some(b) => (-place_of(b)) as i128,
        None => 0x1_0000_0000_0000_0000,
    }
}

/// The key by which the highest double comes first.
fn descending_key(bits: Option<u64>) -> (key: i128)
    ensures
        key == descending(bits),
{
    match bits {
        Some(b) => {
            if b < 0x8000_0000_0000_0000 {
                -(b as i128)
            } else {
                b as i128 - 0x8000_0000_0000_0000
            }
        },
        None => 0x1_0000_0000_0000_0000,
    }
}

/// The keys of a list of doubles.
pub open spec fn descending_keys(values: Seq<Option<u64>>) -> Seq<i128> {
    Seq::new(values.len(), |i: int| descending(values[i]))
}

/// The `limit` highest of a list of doubles, highest first; what has no value comes
/// last.
pub fn highest(values: &Vec<Option<u64>>, limit: usize) -> (picked: Vec<usize>)
    ensures
        are_lowest(descending_keys(values@), picked@, limit as nat),
{
    let mut keys: Vec<i128> = Vec::new();
    let mut i: usize = 0;
    while i < values.len()
        invariant
            i <= values@.len(),
            keys@ == descending_keys(values@.take(i as int)),
        decreases values@.len() - i,
    {
        keys.push(descending_key(values[i]));
        i += 1;
        assert(keys@ =~= descending_keys(values@.take(i as int)));
    }
    assert(keys@ =~= descending_keys(values@));
    lowest(&keys, limit)
}

/// The stored opportunities that are analysed: those of one session, or of all.
#[derive(Debug)]
pub struct BacktestAnalytics {
    pub rows: Vec<OpportunityRow>,
}

impl BacktestAnalytics {
    /// The summary of a session over its opportunities.
    pub fn session_summary(
        &self,
        session_id: &str,
        estimates: Estimates,
    ) -> (summary: Result<SessionSummary, AnalyticsError>)
        ensures
            match summary {
                Ok(s) => {
                    &&& 0 < self.rows@.len() <= u32::MAX
                    &&& s.session_id@ == session_id@
                    &&& s.total_opportunities == self.rows@.len()
                    &&& s.confirmed == count(self.rows@, everything(), Tally::Confirmed)
                    &&& s.slipped == count(self.rows@, everything(), Tally::Slipped)
                    &&& s.avg_profit.is_of(self.rows@, everything(), Measure::Profit)
                    &&& s.avg_adjusted_profit.is_of(self.rows@, everything(), Measure::AdjustedProfit)
                    &&& s.avg_duration_ns.is_of(self.rows@, everything(), Measure::Duration)
                    &&& s.avg_ticks_valid.is_of(self.rows@, everything(), Measure::Ticks)
                    &&& s.estimates == estimates
                    &&& s.sums_up(self.rows@)
                },
                Err(AnalyticsError::NoOpportunities) => self.rows@.len() == 0,
                Err(AnalyticsError::TooMany) => self.rows@.len() > u32::MAX,
            },
    {
        if self.rows.len() == 0 {
            return Err(AnalyticsError::NoOpportunities);
        }
        if self.rows.len() as u64 > u32::MAX as u64 {
            return Err(AnalyticsError::TooMany);
        }
        let filter = Filter { group: None, slipped_only: false };
        proof {
            all_are_counted(self.rows@);
        }
        Ok(
            SessionSummary {
                session_id: session_id.to_owned(),
                total_opportunities: self.rows.len() as u32,
                confirmed: tally_rows(&self.rows, &filter, Tally::Confirmed) as u32,
                slipped: tally_rows(&self.rows, &filter, Tally::Slipped) as u32,
                avg_profit: mean(&self.rows, &filter, Measure::Profit),
                avg_adjusted_profit: mean(&self.rows, &filter, Measure::AdjustedProfit),
                avg_duration_ns: mean(&self.rows, &filter, Measure::Duration),
                avg_ticks_valid: mean(&self.rows, &filter, Measure::Ticks),
                estimates,
            },
        )
    }

    /// How the opportunities slipped, over those that did.
    pub fn slippage_analysis(&self) -> (analysis: Result<
        SlippageAnalysis,
        AnalyticsError,
    >)
        ensures
            match analysis {
                Ok(a) => {
                    &&& a.avg_slippage.is_of(self.rows@, all_slipped(), Measure::Slippage)
                    &&& match a.max_slippage {
                        Some(v) => is_largest(self.rows@, all_slipped(), Measure::Slippage, v as int),
                        None => no_value(self.rows@, all_slipped(), Measure::Slippage),
                    }
                    &&& match a.min_slippage {
                        Some(v) => is_smallest(self.rows@, all_slipped(), Measure::Slippage, v as int),
                        None => no_value(self.rows@, all_slipped(), Measure::Slippage),
                    }
                    &&& a.positive_slippage_count == count(
                        self.rows@,
                        all_slipped(),
                        Tally::PositiveSlippage,
                    )
                    &&& a.zero_or_negative_count == count(
                        self.rows@,
                        all_slipped(),
                        Tally::ZeroOrNegativeSlippage,
                    )
                    &&& a.avg_ticks_before_slip.is_of(self.rows@, all_slipped(), Measure::Ticks)
                    &&& a.sums_up(self.rows@)
                },
                Err(e) => {
                    &&& e == AnalyticsError::TooMany
                    &&& count(self.rows@, all_slipped(), Tally::PositiveSlippage) > u32::MAX || count(
                        self.rows@,
                        all_slipped(),
                        Tally::ZeroOrNegativeSlippage,
                    ) > u32::MAX
                },
            },
    {
        let filter = Filter { group: None, slipped_only: true };
        let positive: u64 = tally_rows(&self.rows, &filter, Tally::PositiveSlippage);
        let other: u64 = tally_rows(&self.rows, &filter, Tally::ZeroOrNegativeSlippage);
        if positive > u32::MAX as u64 || other > u32::MAX as u64 {
            return Err(AnalyticsError::TooMany);
        }
        let (low, high): (Option<i32>, Option<i32>) = match slippage_range(&self.rows) {
            Some((low, high)) => (Some(low), Some(high)),
            None => (None, None),
        };
        Ok(
            SlippageAnalysis {
                avg_slippage: mean(&self.rows, &filter, Measure::Slippage),
                max_slippage: high,
                min_slippage: low,
                positive_slippage_count: positive as u32,
                zero_or_negative_count: other as u32,
                avg_ticks_before_slip: mean(&self.rows, &filter, Measure::Ticks),
            },
        )
    }
}

/// What is known in doubles of one group.
#[derive(Debug)]
pub struct GroupEstimates {
    pub name: String,
    pub estimates: Estimates,
}

/// What a group of which nothing is known in doubles has.
pub open spec fn no_estimates() -> Estimates {
    Estimates { avg_fill_probability_bits: None, expected_profit_bits: None }
}

/// What is known in doubles of the group `name`.
pub open spec fn estimates_of(known: Seq<GroupEstimates>, name: Seq<char>) -> Estimates
    decreases known.len(),
{
    if known.len() == 0 {
        no_estimates()
    } else if known.first().name@ == name {
        known.first().estimates
    } else {
        estimates_of(known.drop_first(), name)
    }
}

/// What is known in doubles of the group `name`.
fn find_estimates(known: &Vec<GroupEstimates>, name: &str) -> (estimates: Estimates)
    ensures
        estimates == estimates_of(known@, name@),
{
    let mut i: usize = 0;
    assert(known@.skip(0) =~= known@);
    while i < known.len()
        invariant
            i <= known@.len(),
            estimates_of(known@, name@) == estimates_of(known@.skip(i as int), name@),
        decreases known@.len() - i,
    {
        assert(known@.skip(i as int).drop_first() =~= known@.skip(i + 1));
        if same_text(known[i].name.as_str(), name) {
            return known[i].estimates;
        }
        i += 1;
    }
    Estimates { avg_fill_probability_bits: None, expected_profit_bits: None }
}

/// How one strategy did.
#[derive(Debug)]
pub struct StrategyStats {
    pub strategy_id: String,
    pub total_opportunities: u32,
    pub confirmed: u32,
    pub slipped: u32,
    pub avg_profit: Mean,
    pub avg_adjusted_profit: Mean,
    pub avg_duration_ns: Mean,
    pub avg_ticks_valid: Mean,
    /// Over those that slipped.
    pub avg_slippage: Mean,
    pub estimates: Estimates,
}

impl StrategyStats {
    /// Whether these are the statistics of the strategy `name`.
    pub open spec fn describes(
        self,
        rows: Seq<OpportunityRow>,
        known: Seq<GroupEstimates>,
        name: Seq<char>,
    ) -> bool {
        let scope = group_of(Grouping::Strategy, name);
        &&& self.strategy_id@ == name
        &&& self.total_opportunities == count(rows, scope, Tally::All)
        &&& self.confirmed == count(rows, scope, Tally::Confirmed)
        &&& self.slipped == count(rows, scope, Tally::Slipped)
        &&& self.avg_profit.is_of(rows, scope, Measure::Profit)
        &&& self.avg_adjusted_profit.is_of(rows, scope, Measure::AdjustedProfit)
        &&& self.avg_duration_ns.is_of(rows, scope, Measure::Duration)
        &&& self.avg_ticks_valid.is_of(rows, scope, Measure::Ticks)
        &&& self.avg_slippage.is_of(
            rows,
            slipped_of(Grouping::Strategy, name),
            Measure::Slippage,
        )
        &&& self.estimates == estimates_of(known, name)
    }
}

impl Clone for StrategyStats {
    fn clone(&self) -> (copy: Self)
        ensures
            copy == *self,
    {
        StrategyStats {
            strategy_id: self.strategy_id.clone(),
            total_opportunities: self.total_opportunities,
            confirmed: self.confirmed,
            slipped: self.slipped,
            avg_profit: self.avg_profit,
            avg_adjusted_profit: self.avg_adjusted_profit,
            avg_duration_ns: self.avg_duration_ns,
            avg_ticks_valid: self.avg_ticks_valid,
            avg_slippage: self.avg_slippage,
            estimates: self.estimates,
        }
    }
}

/// How one kind of arbitrage did.
#[derive(Debug)]
pub struct ArbTypeStats {
    pub arb_type: String,
    pub total_opportunities: u32,
    pub avg_profit: Mean,
    pub estimates: Estimates,
}

impl ArbTypeStats {
    /// Whether these are the statistics of the kind `name`.
    pub open spec fn describes(
        self,
        rows: Seq<OpportunityRow>,
        known: Seq<GroupEstimates>,
        name: Seq<char>,
    ) -> bool {
        let scope = group_of(Grouping::ArbType, name);
        &&& self.arb_type@ == name
        &&& self.total_opportunities == count(rows, scope, Tally::All)
        &&& self.avg_profit.is_of(rows, scope, Measure::Profit)
        &&& self.estimates == estimates_of(known, name)
    }
}

impl Clone for ArbTypeStats {
    fn clone(&self) -> (copy: Self)
        ensures
            copy == *self,
    {
        ArbTypeStats {
            arb_type: self.arb_type.clone(),
            total_opportunities: self.total_opportunities,
            avg_profit: self.avg_profit,
            estimates: self.estimates,
        }
    }
}

/// Whether some group has more opportunities than fit in 32 bits.
pub open spec fn some_group_too_large(rows: Seq<OpportunityRow>, grouping: Grouping) -> bool {
    exists|i: int|
        0 <= i < groups(rows, grouping).len() && count(
            rows,
            group_of(grouping, #[trigger] groups(rows, grouping)[i]),
            Tally::All,
        ) > u32::MAX
}

/// The keys that order strategies by expected profit, highest first.
pub open spec fn profit_keys(
    rows: Seq<OpportunityRow>,
    known: Seq<GroupEstimates>,
) -> Seq<i128> {
    let names = groups(rows, Grouping::Strategy);
    Seq::new(
        names.len(),
        |i: int| descending(estimates_of(known, names[i]).expected_profit_bits),
    )
}

/// The keys that order kinds of arbitrage by how often they came, most often first.
pub open spec fn frequency_keys(rows: Seq<OpportunityRow>) -> Seq<i128> {
    let names = groups(rows, Grouping::ArbType);
    Seq::new(
        names.len(),
        |i: int| (-count(rows, group_of(Grouping::ArbType, names[i]), Tally::All)) as i128,
    )
}

/// Confirmed opportunities are counted at most where all are.
proof fn lemma_tally_at_most_all(rows: Seq<OpportunityRow>, scope: Scope, tally: Tally)
    ensures
        count(rows, scope, tally) <= count(rows, scope, Tally::All),
    decreases rows.len(),
{
    if rows.len() > 0 {
        lemma_tally_at_most_all(rows.drop_last(), scope, tally);
    }
}

impl BacktestAnalytics {
    /// The statistics of one strategy; `None` where its count does not fit.
    fn strategy_stats(&self, known: &Vec<GroupEstimates>, name: &String) -> (stats: Option<
        StrategyStats,
    >)
        ensures
            match stats {
                Some(s) => s.describes(self.rows@, known@, name@),
                None => count(self.rows@, group_of(Grouping::Strategy, name@), Tally::All)
                    > u32::MAX,
            },
    {
        let filter = Filter {
            group: Some((Grouping::Strategy, name.clone())),
            slipped_only: false,
        };
        let gone = Filter { group: Some((Grouping::Strategy, name.clone())), slipped_only: true };
        let total: u64 = tally_rows(&self.rows, &filter, Tally::All);
        if total > u32::MAX as u64 {
            return None;
        }
        proof {
            lemma_tally_at_most_all(self.rows@, filter@, Tally::Confirmed);
            lemma_tally_at_most_all(self.rows@, filter@, Tally::Slipped);
        }
        Some(
            StrategyStats {
                strategy_id: name.clone(),
                total_opportunities: total as u32,
                confirmed: tally_rows(&self.rows, &filter, Tally::Confirmed) as u32,
                slipped: tally_rows(&self.rows, &filter, Tally::Slipped) as u32,
                avg_profit: mean(&self.rows, &filter, Measure::Profit),
                avg_adjusted_profit: mean(&self.rows, &filter, Measure::AdjustedProfit),
                avg_duration_ns: mean(&self.rows, &filter, Measure::Duration),
                avg_ticks_valid: mean(&self.rows, &filter, Measure::Ticks),
                avg_slippage: mean(&self.rows, &gone, Measure::Slippage),
                estimates: find_estimates(known, name.as_str()),
            },
        )
    }

    /// How each strategy did, by expected profit, highest first.
    pub fn strategy_breakdown(&self, known: &Vec<GroupEstimates>) -> (stats: Result<
        Vec<StrategyStats>,
        AnalyticsError,
    >)
        ensures
            match stats {
                Ok(list) => {
                    &&& !some_group_too_large(self.rows@, Grouping::Strategy)
                    &&& exists|order: Seq<usize>|
                        {
                            &&& #[trigger] are_lowest(
                                profit_keys(self.rows@, known@),
                                order,
                                groups(self.rows@, Grouping::Strategy).len(),
                            )
                            &&& list@.len() == order.len()
                            &&& forall|k: int|
                                0 <= k < list@.len() ==> (#[trigger] list@[k]).describes(
                                    self.rows@,
                                    known@,
                                    groups(self.rows@, Grouping::Strategy)[order[k] as int],
                                )
                        }
                },
                Err(e) => e == AnalyticsError::TooMany && some_group_too_large(
                    self.rows@,
                    Grouping::Strategy,
                ),
            },
    {
        let names: Vec<String> = group_names(&self.rows, Grouping::Strategy);
        let ghost wanted = groups(self.rows@, Grouping::Strategy);
        let mut unordered: Vec<StrategyStats> = Vec::new();
        let mut keys: Vec<i128> = Vec::new();
        let mut i: usize = 0;
        while i < names.len()
            invariant
                i <= names@.len(),
                texts(names@) == wanted,
                wanted == groups(self.rows@, Grouping::Strategy),
                unordered@.len() == i,
                keys@.len() == i,
                forall|k: int|
                    0 <= k < i ==> (#[trigger] unordered@[k]).describes(
                        self.rows@,
                        known@,
                        wanted[k],
                    ),
                forall|k: int|
                    0 <= k < i ==> count(
                        self.rows@,
                        group_of(Grouping::Strategy, #[trigger] wanted[k]),
                        Tally::All,
                    ) <= u32::MAX,
                forall|k: int|
                    0 <= k < i ==> #[trigger] keys@[k] == profit_keys(self.rows@, known@)[k],
            decreases names@.len() - i,
        {
            assert(texts(names@)[i as int] == names@[i as int]@);
            match self.strategy_stats(known, &names[i]) {
                Some(stats) => {
                    keys.push(descending_key(stats.estimates.expected_profit_bits));
                    unordered.push(stats);
                },
                None => {
                    assert(some_group_too_large(self.rows@, Grouping::Strategy));
                    return Err(AnalyticsError::TooMany);
                },
            }
            i += 1;
        }
        assert(keys@ =~= profit_keys(self.rows@, known@));
        let order: Vec<usize> = lowest(&keys, keys.len());
        let mut list: Vec<StrategyStats> = Vec::new();
        let mut k: usize = 0;
        while k < order.len()
            invariant
                k <= order@.len(),
                list@.len() == k,
                unordered@.len() == wanted.len(),
                are_lowest(profit_keys(self.rows@, known@), order@, wanted.len()),
                wanted == groups(self.rows@, Grouping::Strategy),
                forall|j: int|
                    0 <= j < unordered@.len() ==> (#[trigger] unordered@[j]).describes(
                        self.rows@,
                        known@,
                        wanted[j],
                    ),
                forall|j: int|
                    0 <= j < k ==> (#[trigger] list@[j]).describes(
                        self.rows@,
                        known@,
                        wanted[order@[j] as int],
                    ),
            decreases order@.len() - k,
        {
            list.push(unordered[order[k]].clone());
            k += 1;
        }
        Ok(list)
    }

    /// How each kind of arbitrage did, by how often it came, most often first.
    pub fn arb_type_breakdown(&self, known: &Vec<GroupEstimates>) -> (stats: Result<
        Vec<ArbTypeStats>,
        AnalyticsError,
    >)
        ensures
            match stats {
                Ok(list) => {
                    &&& !some_group_too_large(self.rows@, Grouping::ArbType)
                    &&& exists|order: Seq<usize>|
                        {
                            &&& #[trigger] are_lowest(
                                frequency_keys(self.rows@),
                                order,
                                groups(self.rows@, Grouping::ArbType).len(),
                            )
                            &&& list@.len() == order.len()
                            &&& forall|k: int|
                                0 <= k < list@.len() ==> (#[trigger] list@[k]).describes(
                                    self.rows@,
                                    known@,
                                    groups(self.rows@, Grouping::ArbType)[order[k] as int],
                                )
                        }
                },
                Err(e) => e == AnalyticsError::TooMany && some_group_too_large(
                    self.rows@,
                    Grouping::ArbType,
                ),
            },
    {
        let names: Vec<String> = group_names(&self.rows, Grouping::ArbType);
        let ghost wanted = groups(self.rows@, Grouping::ArbType);
        let mut unordered: Vec<ArbTypeStats> = Vec::new();
        let mut keys: Vec<i128> = Vec::new();
        let mut i: usize = 0;
        while i < names.len()
            invariant
                i <= names@.len(),
                texts(names@) == wanted,
                wanted == groups(self.rows@, Grouping::ArbType),
                unordered@.len() == i,
                keys@.len() == i,
                forall|k: int|
                    0 <= k < i ==> (#[trigger] unordered@[k]).describes(
                        self.rows@,
                        known@,
                        wanted[k],
                    ),
                forall|k: int|
                    0 <= k < i ==> #[trigger] keys@[k] == frequency_keys(self.rows@)[k],
            decreases names@.len() - i,
        {
            assert(texts(names@)[i as int] == names@[i as int]@);
            let filter = Filter {
                group: Some((Grouping::ArbType, names[i].clone())),
                slipped_only: false,
            };
            let total: u64 = tally_rows(&self.rows, &filter, Tally::All);
            assert(total == count(
                self.rows@,
                group_of(Grouping::ArbType, wanted[i as int]),
                Tally::All,
            ));
            if total > u32::MAX as u64 {
                assert(some_group_too_large(self.rows@, Grouping::ArbType));
                return Err(AnalyticsError::TooMany);
            }
            keys.push(-(total as i128));
            unordered.push(
                ArbTypeStats {
                    arb_type: names[i].clone(),
                    total_opportunities: total as u32,
                    avg_profit: mean(&self.rows, &filter, Measure::Profit),
                    estimates: find_estimates(known, names[i].as_str()),
                },
            );
            i += 1;
        }
        assert(keys@ =~= frequency_keys(self.rows@));
        assert(!some_group_too_large(self.rows@, Grouping::ArbType)) by {
            assert forall|k: int| 0 <= k < wanted.len() implies count(
                self.rows@,
                group_of(Grouping::ArbType, #[trigger] wanted[k]),
                Tally::All,
            ) <= u32::MAX by {
                assert(unordered@[k].describes(self.rows@, known@, wanted[k]));
            }
        }
        let order: Vec<usize> = lowest(&keys, keys.len());
        let mut list: Vec<ArbTypeStats> = Vec::new();
        let mut k: usize = 0;
        while k < order.len()
            invariant
                k <= order@.len(),
                list@.len() == k,
                unordered@.len() == wanted.len(),
                are_lowest(frequency_keys(self.rows@), order@, wanted.len()),
                wanted == groups(self.rows@, Grouping::ArbType),
                forall|j: int|
                    0 <= j < unordered@.len() ==> (#[trigger] unordered@[j]).describes(
                        self.rows@,
                        known@,
                        wanted[j],
                    ),
                forall|j: int|
                    0 <= j < k ==> (#[trigger] list@[j]).describes(
                        self.rows@,
                        known@,
                        wanted[order@[j] as int],
                    ),
            decreases order@.len() - k,
        {
            list.push(unordered[order[k]].clone());
            k += 1;
        }
        Ok(list)
    }
}

/// How often the strategy in a group was counted.
pub open spec fn strategy_count(rows: Seq<OpportunityRow>, name: Seq<char>, tally: Tally) -> nat {
    count(rows, group_of(Grouping::Strategy, name), tally)
}

/// Whether enough opportunities of a strategy are known to speak of its rate of
/// confirmation.
pub open spec fn rate_counts(rows: Seq<OpportunityRow>, name: Seq<char>) -> bool {
    strategy_count(rows, name, Tally::All) > 10
}

/// Whether strategy `a` has a higher rate of confirmation than `b`.
pub open spec fn higher_rate(rows: Seq<OpportunityRow>, a: Seq<char>, b: Seq<char>) -> bool {
    strategy_count(rows, a, Tally::Confirmed) * strategy_count(rows, b, Tally::All)
        > strategy_count(rows, b, Tally::Confirmed) * strategy_count(rows, a, Tally::All)
}

/// Whether group `i` is the first of those with the highest rate of confirmation.
pub open spec fn has_best_rate(rows: Seq<OpportunityRow>, i: int) -> bool {
    let names = groups(rows, Grouping::Strategy);
    &&& 0 <= i < names.len()
    &&& rate_counts(rows, names[i])
    &&& forall|j: int|
        0 <= j < names.len() && rate_counts(rows, #[trigger] names[j]) ==> !higher_rate(
            rows,
            names[j],
            names[i],
        )
    &&& forall|j: int|
        0 <= j < i && rate_counts(rows, #[trigger] names[j]) ==> higher_rate(
            rows,
            names[i],
            names[j],
        )
}

/// The sum and the number of the slippages of a strategy.
pub open spec fn slippage_sum(rows: Seq<OpportunityRow>, name: Seq<char>) -> int {
    sum(rows, slipped_of(Grouping::Strategy, name), Measure::Slippage)
}

/// The number of the slippages of a strategy.
pub open spec fn slippage_present(rows: Seq<OpportunityRow>, name: Seq<char>) -> nat {
    present(rows, slipped_of(Grouping::Strategy, name), Measure::Slippage)
}

/// Whether enough opportunities of a strategy slipped to speak of its slippage.
pub open spec fn slippage_counts(rows: Seq<OpportunityRow>, name: Seq<char>) -> bool {
    strategy_count(rows, name, Tally::Slipped) > 5
}

/// Whether strategy `a` has a lower mean slippage than `b`.
pub open spec fn lower_slippage(rows: Seq<OpportunityRow>, a: Seq<char>, b: Seq<char>) -> bool {
    slippage_sum(rows, a) * slippage_present(rows, b) < slippage_sum(rows, b) * slippage_present(
        rows,
        a,
    )
}

/// Whether group `i` is the first of those with the lowest mean slippage.
pub open spec fn has_lowest_slippage(rows: Seq<OpportunityRow>, i: int) -> bool {
    let names = groups(rows, Grouping::Strategy);
    &&& 0 <= i < names.len()
    &&& slippage_counts(rows, names[i])
    &&& forall|j: int|
        0 <= j < names.len() && slippage_counts(rows, #[trigger] names[j]) ==> !lower_slippage(
            rows,
            names[j],
            names[i],
        )
    &&& forall|j: int|
        0 <= j < i && slippage_counts(rows, #[trigger] names[j]) ==> lower_slippage(
            rows,
            names[i],
            names[j],
        )
}

/// Whether some strategy of which enough opportunities slipped has no slippage
/// written down.
pub open spec fn some_slippage_missing(rows: Seq<OpportunityRow>) -> bool {
    let names = groups(rows, Grouping::Strategy);
    exists|i: int|
        0 <= i < names.len() && slippage_counts(rows, #[trigger] names[i]) && slippage_present(
            rows,
            names[i],
        ) == 0
}

/// Fractions with positive denominators are ordered transitively.
proof fn lemma_fractions(a: int, x: int, b: int, y: int, c: int, z: int)
    requires
        x > 0,
        y > 0,
        z > 0,
        a * y <= b * x,
        b * z < c * y,
    ensures
        a * z < c * x,
{
    assert(a * z < c * x) by (nonlinear_arith)
        requires
            x > 0,
            y > 0,
            z > 0,
            a * y <= b * x,
            b * z < c * y,
    {
        assert((a * y) * z <= (b * x) * z);
        assert((b * z) * x < (c * y) * x);
        assert(y * (a * z) == (a * y) * z);
        assert((b * x) * z == (b * z) * x);
        assert((c * y) * x == y * (c * x));
        assert(y * (a * z) < y * (c * x));
    }
}

/// Slippages are sums of numbers of 32 bits, of opportunities that slipped.
proof fn lemma_slippage_bound(rows: Seq<OpportunityRow>, name: Seq<char>)
    ensures
        -0x8000_0000 * slippage_present(rows, name) <= slippage_sum(rows, name),
        slippage_sum(rows, name) <= 0x8000_0000 * slippage_present(rows, name),
        slippage_present(rows, name) <= strategy_count(rows, name, Tally::Slipped),
    decreases rows.len(),
{
    if rows.len() > 0 {
        lemma_slippage_bound(rows.drop_last(), name);
    }
}

impl BacktestAnalytics {
    /// The strategy with the highest expected profit, with the bits of that profit.
    /// There is none where there are no opportunities, or where not even the first
    /// strategy has an expected profit.
    pub fn best_expected_profit(&self, known: &Vec<GroupEstimates>) -> (best: Option<(String, u64)>)
        ensures
            exists|order: Seq<usize>| #[trigger]
                are_lowest(profit_keys(self.rows@, known@), order, 1) && match best {
                    Some((name, bits)) => {
                        &&& order.len() == 1
                        &&& name@ == groups(self.rows@, Grouping::Strategy)[order[0] as int]
                        &&& estimates_of(known@, name@).expected_profit_bits == Some(bits)
                    },
                    None => order.len() == 1 ==> estimates_of(
                        known@,
                        groups(self.rows@, Grouping::Strategy)[order[0] as int],
                    ).expected_profit_bits is None,
                },
    {
        let names: Vec<String> = group_names(&self.rows, Grouping::Strategy);
        let ghost wanted = groups(self.rows@, Grouping::Strategy);
        let mut keys: Vec<i128> = Vec::new();
        let mut i: usize = 0;
        while i < names.len()
            invariant
                i <= names@.len(),
                texts(names@) == wanted,
                wanted == groups(self.rows@, Grouping::Strategy),
                keys@.len() == i,
                forall|k: int|
                    0 <= k < i ==> #[trigger] keys@[k] == profit_keys(self.rows@, known@)[k],
            decreases names@.len() - i,
        {
            assert(texts(names@)[i as int] == names@[i as int]@);
            keys.push(
                descending_key(find_estimates(known, names[i].as_str()).expected_profit_bits),
            );
            i += 1;
        }
        assert(keys@ =~= profit_keys(self.rows@, known@));
        let order: Vec<usize> = lowest(&keys, 1);
        assert(are_lowest(profit_keys(self.rows@, known@), order@, 1));
        if order.len() == 0 {
            return None;
        }
        let name: &String = &names[order[0]];
        assert(texts(names@)[order@[0] as int] == name@);
        match find_estimates(known, name.as_str()).expected_profit_bits {
            Some(bits) => Some((name.clone(), bits)),
            None => None,
        }
    }

    /// The strategy with the highest rate of confirmation among those of which more
    /// than ten opportunities are known, with its confirmed and all opportunities.
    pub fn best_confirmation_rate(&self) -> (best: Result<
        Option<(String, u32, u32)>,
        AnalyticsError,
    >)
        ensures
            match best {
                Ok(Some((name, confirmed, total))) => {
                    &&& !some_group_too_large(self.rows@, Grouping::Strategy)
                    &&& exists|i: int|
                        #[trigger] has_best_rate(self.rows@, i) && groups(
                            self.rows@,
                            Grouping::Strategy,
                        )[i] == name@
                    &&& confirmed == strategy_count(self.rows@, name@, Tally::Confirmed)
                    &&& total == strategy_count(self.rows@, name@, Tally::All)
                    &&& total > 10
                    &&& confirmed == lasted_for(self.rows@, name@)
                    &&& total == total_for(self.rows@, name@)
                    &&& forall|other: Seq<char>| #[trigger]
                        total_for(self.rows@, other) > 10 ==> lasted_for(self.rows@, other) * total
                            <= confirmed * total_for(self.rows@, other)
                },
                Ok(None) => {
                    &&& !some_group_too_large(self.rows@, Grouping::Strategy)
                    &&& forall|j: int|
                        0 <= j < groups(self.rows@, Grouping::Strategy).len() ==> !rate_counts(
                            self.rows@,
                            #[trigger] groups(self.rows@, Grouping::Strategy)[j],
                        )
                    &&& forall|other: Seq<char>| #[trigger] total_for(self.rows@, other) <= 10
                },
                Err(e) => e == AnalyticsError::TooMany && some_group_too_large(
                    self.rows@,
                    Grouping::Strategy,
                ),
            },
    {
        let names: Vec<String> = group_names(&self.rows, Grouping::Strategy);
        let ghost wanted = groups(self.rows@, Grouping::Strategy);
        let ghost rows = self.rows@;
        let mut best: Option<(usize, u32, u32)> = None;
        let mut i: usize = 0;
        while i < names.len()
            invariant
                i <= names@.len(),
                rows == self.rows@,
                texts(names@) == wanted,
                wanted == groups(rows, Grouping::Strategy),
                forall|j: int|
                    0 <= j < i ==> strategy_count(rows, #[trigger] wanted[j], Tally::All)
                        <= u32::MAX,
                match best {
                    Some((b, confirmed, total)) => {
                        &&& b < i
                        &&& confirmed == strategy_count(rows, wanted[b as int], Tally::Confirmed)
                        &&& total == strategy_count(rows, wanted[b as int], Tally::All)
                        &&& total > 10
                        &&& forall|j: int|
                            0 <= j < i && rate_counts(rows, #[trigger] wanted[j]) ==> !higher_rate(
                                rows,
                                wanted[j],
                                wanted[b as int],
                            )
                        &&& forall|j: int|
                            0 <= j < b && rate_counts(rows, #[trigger] wanted[j]) ==> higher_rate(
                                rows,
                                wanted[b as int],
                                wanted[j],
                            )
                    },
                    None => forall|j: int|
                        0 <= j < i ==> !rate_counts(rows, #[trigger] wanted[j]),
                },
            decreases names@.len() - i,
        {
            assert(texts(names@)[i as int] == names@[i as int]@);
            let filter = Filter {
                group: Some((Grouping::Strategy, names[i].clone())),
                slipped_only: false,
            };
            assert(filter@ == group_of(Grouping::Strategy, wanted[i as int]));
            let total: u64 = tally_rows(&self.rows, &filter, Tally::All);
            if total > u32::MAX as u64 {
                assert(some_group_too_large(self.rows@, Grouping::Strategy));
                return Err(AnalyticsError::TooMany);
            }
            let confirmed: u64 = tally_rows(&self.rows, &filter, Tally::Confirmed);
            proof {
                lemma_tally_at_most_all(self.rows@, filter@, Tally::Confirmed);
            }
            if total > 10 {
                match best {
                    Some((b, best_confirmed, best_total)) => {
                        assert(confirmed * best_total <= 0xFFFF_FFFF * 0xFFFF_FFFF)
                            by (nonlinear_arith)
                            requires
                                confirmed <= 0xFFFF_FFFF,
                                best_total <= 0xFFFF_FFFF,
                        ;
                        assert(best_confirmed * total <= 0xFFFF_FFFF * 0xFFFF_FFFF)
                            by (nonlinear_arith)
                            requires
                                best_confirmed <= 0xFFFF_FFFF,
                                total <= 0xFFFF_FFFF,
                        ;
                        if confirmed * best_total as u64 > best_confirmed as u64 * total {
                            proof {
                                assert forall|j: int|
                                    0 <= j < i && rate_counts(
                                        rows,
                                        #[trigger] wanted[j],
                                    ) implies higher_rate(rows, wanted[i as int], wanted[j]) by {
                                    assert(!higher_rate(rows, wanted[j], wanted[b as int]));
                                    lemma_fractions(
                                        strategy_count(rows, wanted[j], Tally::Confirmed) as int,
                                        strategy_count(rows, wanted[j], Tally::All) as int,
                                        best_confirmed as int,
                                        best_total as int,
                                        confirmed as int,
                                        total as int,
                                    );
                                }
                            }
                            best = Some((i, confirmed as u32, total as u32));
                        }
                    },
                    None => {
                        best = Some((i, confirmed as u32, total as u32));
                    },
                }
            }
            i += 1;
        }
        match best {
            Some((b, confirmed, total)) => {
                assert(texts(names@)[b as int] == names@[b as int]@);
                assert(has_best_rate(rows, b as int));
                proof {
                    tallies_count_a_groups_own_rows(rows, wanted[b as int]);
                    assert forall|other: Seq<char>| #[trigger]
                        total_for(rows, other) > 10 implies lasted_for(rows, other) * total
                        <= confirmed * total_for(rows, other) by {
                        best_rate_is_the_highest_share(rows, b as int, other);
                    }
                }
                Ok(Some((names[b].clone(), confirmed, total)))
            },
            None => {
                proof {
                    assert forall|other: Seq<char>| #[trigger] total_for(rows, other) <= 10 by {
                        no_rate_where_none_has_more_than_ten(rows, other);
                    }
                }
                Ok(None)
            },
        }
    }

    /// The strategy with the lowest mean slippage among those of which more than
    /// five opportunities slipped. There is none where one of them has no slippage
    /// written down.
    pub fn lowest_slippage(&self) -> (best: Result<Option<(String, Mean)>, AnalyticsError>)
        ensures
            match best {
                Ok(Some((name, slippage))) => {
                    &&& !some_group_too_large(self.rows@, Grouping::Strategy)
                    &&& !some_slippage_missing(self.rows@)
                    &&& exists|i: int|
                        #[trigger] has_lowest_slippage(self.rows@, i) && groups(
                            self.rows@,
                            Grouping::Strategy,
                        )[i] == name@
                    &&& slippage.sum == slippage_sum(self.rows@, name@)
                    &&& slippage.count == slippage_present(self.rows@, name@)
                    &&& slipped_for(self.rows@, name@) > 5
                    &&& slippage.sum == slippage_total_for(self.rows@, name@)
                    &&& slippage.count == slippage_number_for(self.rows@, name@)
                    &&& forall|other: Seq<char>| #[trigger]
                        slipped_for(self.rows@, other) > 5 ==> slippage.sum * slippage_number_for(
                            self.rows@,
                            other,
                        ) <= slippage_total_for(self.rows@, other) * slippage.count
                },
                Ok(None) => {
                    &&& !some_group_too_large(self.rows@, Grouping::Strategy)
                    &&& some_slippage_missing(self.rows@) || forall|j: int|
                        0 <= j < groups(self.rows@, Grouping::Strategy).len() ==> !slippage_counts(
                            self.rows@,
                            #[trigger] groups(self.rows@, Grouping::Strategy)[j],
                        )
                },
                Err(e) => e == AnalyticsError::TooMany && some_group_too_large(
                    self.rows@,
                    Grouping::Strategy,
                ),
            },
    {
        let names: Vec<String> = group_names(&self.rows, Grouping::Strategy);
        let ghost wanted = groups(self.rows@, Grouping::Strategy);
        let ghost rows = self.rows@;
        let mut best: Option<(usize, Mean)> = None;
        let mut missing: bool = false;
        let mut i: usize = 0;
        while i < names.len()
            invariant
                i <= names@.len(),
                rows == self.rows@,
                texts(names@) == wanted,
                wanted == groups(rows, Grouping::Strategy),
                forall|j: int|
                    0 <= j < i ==> strategy_count(rows, #[trigger] wanted[j], Tally::All)
                        <= u32::MAX,
                missing ==> some_slippage_missing(rows),
                !missing ==> forall|j: int|
                    0 <= j < i && slippage_counts(rows, #[trigger] wanted[j])
                        ==> slippage_present(rows, wanted[j]) > 0,
                missing || match best {
                    Some((b, mean)) => {
                        &&& b < i
                        &&& mean.sum == slippage_sum(rows, wanted[b as int])
                        &&& mean.count == slippage_present(rows, wanted[b as int])
                        &&& 0 < mean.count <= u32::MAX
                        &&& -0x8000_0000 * mean.count <= mean.sum <= 0x8000_0000 * mean.count
                        &&& slippage_counts(rows, wanted[b as int])
                        &&& forall|j: int|
                            0 <= j < i && slippage_counts(rows, #[trigger] wanted[j])
                                ==> !lower_slippage(rows, wanted[j], wanted[b as int])
                        &&& forall|j: int|
                            0 <= j < b && slippage_counts(rows, #[trigger] wanted[j])
                                ==> lower_slippage(rows, wanted[b as int], wanted[j])
                    },
                    None => forall|j: int|
                        0 <= j < i ==> !slippage_counts(rows, #[trigger] wanted[j]),
                },
            decreases names@.len() - i,
        {
            assert(texts(names@)[i as int] == names@[i as int]@);
            let filter = Filter {
                group: Some((Grouping::Strategy, names[i].clone())),
                slipped_only: false,
            };
            let gone = Filter {
                group: Some((Grouping::Strategy, names[i].clone())),
                slipped_only: true,
            };
            assert(filter@ == group_of(Grouping::Strategy, wanted[i as int]));
            assert(gone@ == slipped_of(Grouping::Strategy, wanted[i as int]));
            let total: u64 = tally_rows(&self.rows, &filter, Tally::All);
            if total > u32::MAX as u64 {
                assert(some_group_too_large(self.rows@, Grouping::Strategy));
                return Err(AnalyticsError::TooMany);
            }
            let slipped: u64 = tally_rows(&self.rows, &filter, Tally::Slipped);
            let next: Mean = mean(&self.rows, &gone, Measure::Slippage);
            proof {
                lemma_tally_at_most_all(self.rows@, filter@, Tally::Slipped);
                lemma_slippage_bound(self.rows@, wanted[i as int]);
            }
            if slipped > 5 && !missing {
                assert(slippage_counts(rows, wanted[i as int]));
                if next.count == 0 {
                    missing = true;
                } else {
                    match best {
                        Some((b, lowest_yet)) => {
                            assert(-0x8000_0000 * 0xFFFF_FFFF * 0xFFFF_FFFF <= next.sum
                                * lowest_yet.count <= 0x8000_0000 * 0xFFFF_FFFF * 0xFFFF_FFFF)
                                by (nonlinear_arith)
                                requires
                                    -0x8000_0000 * next.count <= next.sum <= 0x8000_0000
                                        * next.count,
                                    0 < next.count <= 0xFFFF_FFFF,
                                    0 < lowest_yet.count <= 0xFFFF_FFFF,
                            ;
                            assert(-0x8000_0000 * 0xFFFF_FFFF * 0xFFFF_FFFF <= lowest_yet.sum
                                * next.count <= 0x8000_0000 * 0xFFFF_FFFF * 0xFFFF_FFFF)
                                by (nonlinear_arith)
                                requires
                                    -0x8000_0000 * lowest_yet.count <= lowest_yet.sum
                                        <= 0x8000_0000 * lowest_yet.count,
                                    0 < next.count <= 0xFFFF_FFFF,
                                    0 < lowest_yet.count <= 0xFFFF_FFFF,
                            ;
                            if next.sum * (lowest_yet.count as i128) < lowest_yet.sum * (
                            next.count as i128) {
                                proof {
                                    assert forall|j: int|
                                        0 <= j < i && slippage_counts(
                                            rows,
                                            #[trigger] wanted[j],
                                        ) implies lower_slippage(
                                        rows,
                                        wanted[i as int],
                                        wanted[j],
                                    ) by {
                                        assert(!lower_slippage(rows, wanted[j], wanted[b as int]));
                                        assert(slippage_present(rows, wanted[j]) > 0);
                                        lemma_fractions_down(
                                            slippage_sum(rows, wanted[j]),
                                            slippage_present(rows, wanted[j]) as int,
                                            lowest_yet.sum as int,
                                            lowest_yet.count as int,
                                            next.sum as int,
                                            next.count as int,
                                        );
                                    }
                                }
                                best = Some((i, next));
                            }
                        },
                        None => {
                            best = Some((i, next));
                        },
                    }
                }
            }
            i += 1;
        }
        if missing {
            return Ok(None);
        }
        match best {
            Some((b, slippage)) => {
                assert(texts(names@)[b as int] == names@[b as int]@);
                assert(has_lowest_slippage(rows, b as int));
                proof {
                    slippage_means_are_over_its_own_rows(rows, wanted[b as int]);
                    lowest_slippage_is_the_lowest_mean(rows, b as int, wanted[b as int]);
                    assert forall|other: Seq<char>| #[trigger]
                        slipped_for(rows, other) > 5 implies slippage.sum * slippage_number_for(
                        rows,
                        other,
                    ) <= slippage_total_for(rows, other) * slippage.count by {
                        lowest_slippage_is_the_lowest_mean(rows, b as int, other);
                    }
                }
                Ok(Some((names[b].clone(), slippage)))
            },
            None => Ok(None),
        }
    }
}

/// Fractions with positive denominators are ordered transitively, downwards.
proof fn lemma_fractions_down(a: int, x: int, b: int, y: int, c: int, z: int)
    requires
        x > 0,
        y > 0,
        z > 0,
        b * x <= a * y,
        c * y < b * z,
    ensures
        c * x < a * z,
{
    assert(c * x < a * z) by (nonlinear_arith)
        requires
            x > 0,
            y > 0,
            z > 0,
            b * x <= a * y,
            c * y < b * z,
    {
        assert((b * x) * z <= (a * y) * z);
        assert((c * y) * x < (b * z) * x);
        assert((a * y) * z == y * (a * z));
        assert((b * x) * z == (b * z) * x);
        assert((c * y) * x == y * (c * x));
        assert(y * (c * x) < y * (a * z));
    }
}

/// No opportunity is both confirmed and slipped, so the two together are at most
/// all.
pub proof fn confirmed_and_slipped_are_apart(rows: Seq<OpportunityRow>, scope: Scope)
    ensures
        count(rows, scope, Tally::Confirmed) + count(rows, scope, Tally::Slipped) <= count(
            rows,
            scope,
            Tally::All,
        ),
    decreases rows.len(),
{
    if rows.len() > 0 {
        confirmed_and_slipped_are_apart(rows.drop_last(), scope);
    }
}

/// Every slippage that is written down is either above zero or not.
pub proof fn slippages_split_by_sign(rows: Seq<OpportunityRow>, scope: Scope)
    ensures
        count(rows, scope, Tally::PositiveSlippage) + count(
            rows,
            scope,
            Tally::ZeroOrNegativeSlippage,
        ) == present(rows, scope, Measure::Slippage),
    decreases rows.len(),
{
    if rows.len() > 0 {
        slippages_split_by_sign(rows.drop_last(), scope);
    }
}

/// What is counted within each of a list of groups, in sum.
pub open spec fn count_over(
    rows: Seq<OpportunityRow>,
    grouping: Grouping,
    names: Seq<Seq<char>>,
    tally: Tally,
) -> nat
    decreases names.len(),
{
    if names.len() == 0 {
        0
    } else {
        count_over(rows, grouping, names.drop_last(), tally) + count(
            rows,
            group_of(grouping, names.last()),
            tally,
        )
    }
}

/// One more opportunity is counted once where its group is among the names.
proof fn lemma_count_over_last(
    rows: Seq<OpportunityRow>,
    grouping: Grouping,
    names: Seq<Seq<char>>,
    tally: Tally,
)
    requires
        rows.len() > 0,
        names.no_duplicates(),
    ensures
        count_over(rows, grouping, names, tally) == count_over(
            rows.drop_last(),
            grouping,
            names,
            tally,
        ) + if names.contains(rows.last().label(grouping)) && rows.last().counts(tally) {
            1nat
        } else {
            0nat
        },
    decreases names.len(),
{
    if names.len() > 0 {
        let rest = names.drop_last();
        let label = rows.last().label(grouping);
        lemma_count_over_last(rows, grouping, rest, tally);
        if label == names.last() {
            assert(names.contains(label));
            assert(!rest.contains(label)) by {
                if rest.contains(label) {
                    let k = choose|k: int| 0 <= k < rest.len() && rest[k] == label;
                    assert(names[k] == names[names.len() - 1]);
                }
            }
        } else {
            if names.contains(label) {
                let k = choose|k: int| 0 <= k < names.len() && names[k] == label;
                assert(rest[k] == label);
            }
            if rest.contains(label) {
                let k = choose|k: int| 0 <= k < rest.len() && rest[k] == label;
                assert(names[k] == label);
            }
        }
    }
}

/// Each text that occurs is listed exactly once.
pub proof fn distinct_lists_each_once(labels: Seq<Seq<char>>)
    ensures
        distinct(labels).no_duplicates(),
        forall|label: Seq<char>|
            #[trigger] distinct(labels).contains(label) <==> labels.contains(label),
    decreases labels.len(),
{
    if labels.len() > 0 {
        let rest = labels.drop_last();
        distinct_lists_each_once(rest);
        let before = distinct(rest);
        assert forall|label: Seq<char>|
            #[trigger] distinct(labels).contains(label) <==> labels.contains(label) by {
            if labels.contains(label) {
                let k = choose|k: int| 0 <= k < labels.len() && labels[k] == label;
                if k < rest.len() {
                    assert(rest[k] == label);
                    assert(before.contains(label));
                    let m = choose|m: int| 0 <= m < before.len() && before[m] == label;
                    assert(distinct(labels)[m] == label);
                } else if !before.contains(label) {
                    assert(distinct(labels)[before.len() as int] == label);
                }
            }
            if distinct(labels).contains(label) {
                let m = choose|m: int|
                    0 <= m < distinct(labels).len() && distinct(labels)[m] == label;
                if m < before.len() {
                    assert(before[m] == label);
                    assert(distinct(rest).contains(label));
                    assert(rest.contains(label));
                    let k = choose|k: int| 0 <= k < rest.len() && rest[k] == label;
                    assert(labels[k] == label);
                } else {
                    assert(labels[labels.len() - 1] == label);
                }
            }
        }
    }
}

/// What is counted within a list of groups that has each occurring group once is
/// what is counted in all.
proof fn lemma_count_over_all(
    rows: Seq<OpportunityRow>,
    grouping: Grouping,
    names: Seq<Seq<char>>,
    tally: Tally,
)
    requires
        names.no_duplicates(),
        forall|i: int| 0 <= i < rows.len() ==> names.contains(
            (#[trigger] rows[i]).label(grouping),
        ),
    ensures
        count_over(rows, grouping, names, tally) == count(rows, everything(), tally),
    decreases rows.len(),
{
    if rows.len() == 0 {
        lemma_count_over_none(rows, grouping, names, tally);
    } else {
        lemma_count_over_last(rows, grouping, names, tally);
        assert forall|i: int| 0 <= i < rows.drop_last().len() implies names.contains(
            (#[trigger] rows.drop_last()[i]).label(grouping),
        ) by {
            assert(rows.drop_last()[i] == rows[i]);
        }
        lemma_count_over_all(rows.drop_last(), grouping, names, tally);
        assert(names.contains(rows[rows.len() - 1].label(grouping)));
    }
}

/// Nothing is counted where there is nothing.
proof fn lemma_count_over_none(
    rows: Seq<OpportunityRow>,
    grouping: Grouping,
    names: Seq<Seq<char>>,
    tally: Tally,
)
    requires
        rows.len() == 0,
    ensures
        count_over(rows, grouping, names, tally) == 0,
    decreases names.len(),
{
    if names.len() > 0 {
        lemma_count_over_none(rows, grouping, names.drop_last(), tally);
    }
}

/// The groups partition the opportunities: what is counted in each, in sum, is what
/// is counted in all.
pub proof fn groups_partition_the_rows(
    rows: Seq<OpportunityRow>,
    grouping: Grouping,
    tally: Tally,
)
    ensures
        count_over(rows, grouping, groups(rows, grouping), tally) == count(
            rows,
            everything(),
            tally,
        ),
{
    distinct_lists_each_once(labels(rows, grouping));
    assert forall|i: int| 0 <= i < rows.len() implies groups(rows, grouping).contains(
        (#[trigger] rows[i]).label(grouping),
    ) by {
        assert(labels(rows, grouping)[i] == rows[i].label(grouping));
        assert(labels(rows, grouping).contains(rows[i].label(grouping)));
    }
    lemma_count_over_all(rows, grouping, groups(rows, grouping), tally);
}

/// All opportunities are counted.
pub proof fn all_are_counted(rows: Seq<OpportunityRow>)
    ensures
        count(rows, everything(), Tally::All) == rows.len(),
    decreases rows.len(),
{
    if rows.len() > 0 {
        all_are_counted(rows.drop_last());
    }
}

} // verus!
