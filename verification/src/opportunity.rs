//! The life of one opportunity: detected, confirmed while it lasts, slipped when
//! it vanishes, or closed.
//!
//! Probabilities are IEEE 754 doubles and are carried as their bits. The constants
//! of the fill estimate stand here; the arithmetic on doubles is left to the
//! caller, who is told by a [`FillStep`] what to do.

use crate::signal::{ArbType, OpportunityKey, StrategySignal};
use crate::text::same_text;
use vstd::prelude::*;
use vstd::string::*;

verus! {

/// Where an opportunity stands in its life.
#[derive(Debug, Clone, Copy, PartialEq, Eq, Structural)]
pub enum OpportunityState {
    /// Just detected, not yet validated.
    Detected,
    /// Still valid on the next price update.
    Confirmed,
    /// Disappeared before it could be acted on.
    Slipped,
    /// Closed naturally: it would have been profitable.
    ClosedProfitable,
    /// The market resolved.
    Expired,
}

impl OpportunityState {
    /// The name under which a state is stored.
    pub open spec fn label(self) -> Seq<char> {
        match self {
            OpportunityState::Detected => "detected"@,
            OpportunityState::Confirmed => "confirmed"@,
            OpportunityState::Slipped => "slipped"@,
            OpportunityState::ClosedProfitable => "closed_profitable"@,
            OpportunityState::Expired => "expired"@,
        }
    }

    /// The state that a stored name stands for; any other text stands for
    /// `Detected`.
    pub open spec fn of_label(s: Seq<char>) -> OpportunityState {
        if s == OpportunityState::Confirmed.label() {
            OpportunityState::Confirmed
        } else if s == OpportunityState::Slipped.label() {
            OpportunityState::Slipped
        } else if s == OpportunityState::ClosedProfitable.label() {
            OpportunityState::ClosedProfitable
        } else if s == OpportunityState::Expired.label() {
            OpportunityState::Expired
        } else {
            OpportunityState::Detected
        }
    }

    /// The name under which this state is stored.
    pub fn as_str(&self) -> (name: &'static str)
        ensures
            name@ == self.label(),
    {
        match self {
            OpportunityState::Detected => "detected",
            OpportunityState::Confirmed => "confirmed",
            OpportunityState::Slipped => "slipped",
            OpportunityState::ClosedProfitable => "closed_profitable",
            OpportunityState::Expired => "expired",
        }
    }

    /// The state of that name, or `Detected` where no state has it.
    pub fn from_str(s: &str) -> (state: Self)
        ensures
            state == Self::of_label(s@),
    {
        if same_text(s, "confirmed") {
            OpportunityState::Confirmed
        } else if same_text(s, "slipped") {
            OpportunityState::Slipped
        } else if same_text(s, "closed_profitable") {
            OpportunityState::ClosedProfitable
        } else if same_text(s, "expired") {
            OpportunityState::Expired
        } else {
            OpportunityState::Detected
        }
    }
}

/// No two states share a name.
pub proof fn state_names_differ(a: OpportunityState, b: OpportunityState)
    ensures
        a.label() == b.label() <==> a == b,
{
    reveal_strlit("detected");
    reveal_strlit("confirmed");
    reveal_strlit("slipped");
    reveal_strlit("closed_profitable");
    reveal_strlit("expired");
    if a != b {
        // "expired" and "slipped" have the same length, all others differ in it.
        assert(a.label().len() != b.label().len() || a.label()[0] != b.label()[0]);
    }
}

/// A stored state reads back as itself.
pub proof fn state_name_reads_back(state: OpportunityState)
    ensures
        OpportunityState::of_label(state.label()) == state,
{
    state_names_differ(state, OpportunityState::Confirmed);
    state_names_differ(state, OpportunityState::Slipped);
    state_names_differ(state, OpportunityState::ClosedProfitable);
    state_names_differ(state, OpportunityState::Expired);
}

/// A text that names no state reads as `Detected`.
pub proof fn unknown_name_reads_as_detected(s: Seq<char>)
    requires
        forall|state: OpportunityState| s != #[trigger] state.label(),
    ensures
        OpportunityState::of_label(s) == OpportunityState::Detected,
{
}

/// The bits of 0.8: ten dollars or more on the thinner leg.
pub const FILL_DEEP_BITS: u64 = 0x3FE9_9999_9999_999A;

/// The bits of 0.6: five dollars or more.
pub const FILL_GOOD_BITS: u64 = 0x3FE3_3333_3333_3333;

/// The bits of 0.4: two dollars or more.
pub const FILL_THIN_BITS: u64 = 0x3FD9_9999_9999_999A;

/// The bits of 0.2: less than two dollars.
pub const FILL_POOR_BITS: u64 = 0x3FC9_9999_9999_999A;

/// The bits of 0.9: the estimate for an opportunity that lasted to the end.
pub const FILL_LASTED_BITS: u64 = 0x3FEC_CCCC_CCCC_CCCD;

/// The bits of 0.1: what each second of life adds to the estimate.
pub const BONUS_PER_SECOND_BITS: u64 = 0x3FB9_9999_9999_999A;

/// The bits of 0.95: the estimate never grows beyond this.
pub const FILL_CAP_BITS: u64 = 0x3FEE_6666_6666_6666;

/// The bits of 0.2: what is left of the estimate of an opportunity that vanished
/// at once.
pub const VANISHED_FACTOR_BITS: u64 = 0x3FC9_9999_9999_999A;

/// The bits of 0.5: what is left of the estimate of one that vanished soon.
pub const FLEETING_FACTOR_BITS: u64 = 0x3FE0_0000_0000_0000;

/// What an update does to the estimated fill probability.
#[derive(Debug, Clone, Copy, PartialEq, Eq, Structural)]
pub enum FillStep {
    /// Add the bonus of `BONUS_PER_SECOND_BITS` for each second of `duration_ns`,
    /// then take the smaller of that and `FILL_CAP_BITS`.
    Grow { duration_ns: u64 },
    /// Multiply by the double with these bits.
    Scale { factor_bits: u64 },
    /// Leave the estimate as it is.
    Keep,
}

/// The smaller of the two sizes.
pub open spec fn thinner(yes_size: u16, no_size: u16) -> u16 {
    if yes_size <= no_size {
        yes_size
    } else {
        no_size
    }
}

/// The first estimate of the fill probability, from the size of the thinner leg.
pub open spec fn liquidity_estimate(size: u16) -> u64 {
    if size >= 1000 {
        FILL_DEEP_BITS
    } else if size >= 500 {
        FILL_GOOD_BITS
    } else if size >= 200 {
        FILL_THIN_BITS
    } else {
        FILL_POOR_BITS
    }
}

/// More liquidity never lowers the first estimate. The doubles are positive, so
/// they are ordered as their bits are.
pub proof fn liquidity_never_lowers_the_estimate(smaller: u16, larger: u16)
    requires
        smaller <= larger,
    ensures
        liquidity_estimate(smaller) <= liquidity_estimate(larger),
        liquidity_estimate(larger) < FILL_CAP_BITS,
{
}

/// A price of 16 bits read as a signed number of 16 bits.
pub open spec fn as_cents(raw: u16) -> int {
    if raw < 0x8000 {
        raw as int
    } else {
        raw - 0x1_0000
    }
}

/// The time from one moment to a later one, and none where the second is earlier.
pub open spec fn elapsed(from_ns: u64, to_ns: u64) -> u64 {
    if to_ns >= from_ns {
        (to_ns - from_ns) as u64
    } else {
        0
    }
}

/// Whether a number fits in 16 signed bits.
pub open spec fn fits_i16(n: int) -> bool {
    i16::MIN <= n <= i16::MAX
}

/// A price of 16 bits read as a signed number of 16 bits.
fn cents(raw: u16) -> (value: i32)
    ensures
        value == as_cents(raw),
{
    if raw < 0x8000 {
        raw as i32
    } else {
        raw as i32 - 0x1_0000
    }
}

/// The time from one moment to a later one.
fn time_between(from_ns: u64, to_ns: u64) -> (ns: u64)
    ensures
        ns == elapsed(from_ns, to_ns),
{
    if to_ns >= from_ns {
        to_ns - from_ns
    } else {
        0
    }
}

/// An opportunity with what happened to it since it was detected.
#[derive(Debug)]
pub struct TrackedOpportunity {
    /// Set by the store; 0 before that.
    pub id: i64,
    pub strategy_id: String,
    pub market_id: u16,
    pub market_description: String,
    pub arb_type: ArbType,
    pub detected_at_ns: u64,
    pub detected_cost: u16,
    pub detected_profit: i16,
    pub detected_yes_price: u16,
    pub detected_no_price: u16,
    pub detected_yes_size: u16,
    pub detected_no_size: u16,
    /// The bits of an IEEE 754 double.
    pub detected_confidence_bits: u64,
    pub state: OpportunityState,
    /// How many price updates it was seen in.
    pub ticks_valid: u32,
    pub last_seen_ns: u64,
    pub duration_ns: u64,
    pub worst_cost_seen: u16,
    pub best_cost_seen: u16,
    /// The cost when it vanished.
    pub final_cost: Option<u16>,
    /// The bits of an IEEE 754 double.
    pub estimated_fill_prob_bits: u64,
    /// In cents.
    pub estimated_slippage: i16,
    /// The profit less the slippage, in cents.
    pub adjusted_profit: i16,
}

impl Clone for TrackedOpportunity {
    fn clone(&self) -> (copy: Self)
        ensures
            copy == *self,
    {
        TrackedOpportunity {
            id: self.id,
            strategy_id: self.strategy_id.clone(),
            market_id: self.market_id,
            market_description: self.market_description.clone(),
            arb_type: self.arb_type,
            detected_at_ns: self.detected_at_ns,
            detected_cost: self.detected_cost,
            detected_profit: self.detected_profit,
            detected_yes_price: self.detected_yes_price,
            detected_no_price: self.detected_no_price,
            detected_yes_size: self.detected_yes_size,
            detected_no_size: self.detected_no_size,
            detected_confidence_bits: self.detected_confidence_bits,
            state: self.state,
            ticks_valid: self.ticks_valid,
            last_seen_ns: self.last_seen_ns,
            duration_ns: self.duration_ns,
            worst_cost_seen: self.worst_cost_seen,
            best_cost_seen: self.best_cost_seen,
            final_cost: self.final_cost,
            estimated_fill_prob_bits: self.estimated_fill_prob_bits,
            estimated_slippage: self.estimated_slippage,
            adjusted_profit: self.adjusted_profit,
        }
    }
}

impl TrackedOpportunity {
    /// What tells this opportunity from others.
    pub open spec fn key(self) -> OpportunityKey {
        OpportunityKey {
            strategy: self.strategy_id@,
            market_id: self.market_id,
            arb_type: self.arb_type,
        }
    }

    /// The opportunity that a signal reports, as it is when it is first seen.
    pub open spec fn detected(signal: StrategySignal, description: String) -> TrackedOpportunity {
        TrackedOpportunity {
            id: 0,
            strategy_id: signal.strategy_id,
            market_id: signal.market_id,
            market_description: description,
            arb_type: signal.arb_type,
            detected_at_ns: signal.timestamp_ns,
            detected_cost: signal.cost_cents,
            detected_profit: signal.profit_cents,
            detected_yes_price: signal.yes_price,
            detected_no_price: signal.no_price,
            detected_yes_size: signal.yes_size,
            detected_no_size: signal.no_size,
            detected_confidence_bits: signal.confidence_bits,
            state: OpportunityState::Detected,
            ticks_valid: 1,
            last_seen_ns: signal.timestamp_ns,
            duration_ns: 0,
            worst_cost_seen: signal.cost_cents,
            best_cost_seen: signal.cost_cents,
            final_cost: None,
            estimated_fill_prob_bits: liquidity_estimate(thinner(signal.yes_size, signal.no_size)),
            estimated_slippage: 0,
            adjusted_profit: signal.profit_cents,
        }
    }

    /// This opportunity after an update that still saw it.
    pub open spec fn confirmed(self, cost: Option<u16>, timestamp_ns: u64) -> TrackedOpportunity {
        TrackedOpportunity {
            ticks_valid: (self.ticks_valid + 1) as u32,
            state: OpportunityState::Confirmed,
            last_seen_ns: timestamp_ns,
            duration_ns: elapsed(self.detected_at_ns, timestamp_ns),
            worst_cost_seen: match cost {
                Some(c) => if c > self.worst_cost_seen { c } else { self.worst_cost_seen },
                None => self.worst_cost_seen,
            },
            best_cost_seen: match cost {
                Some(c) => if c < self.best_cost_seen { c } else { self.best_cost_seen },
                None => self.best_cost_seen,
            },
            ..self
        }
    }

    /// The slippage of this opportunity once it has vanished at `cost`.
    pub open spec fn slippage_at(self, cost: Option<u16>) -> int {
        match cost {
            Some(c) => as_cents(c) - as_cents(self.detected_cost),
            None => self.estimated_slippage as int,
        }
    }

    /// The profit less the slippage, where there is any.
    pub open spec fn profit_at(self, cost: Option<u16>) -> int {
        if self.slippage_at(cost) > 0 {
            self.detected_profit - self.slippage_at(cost)
        } else {
            self.detected_profit as int
        }
    }

    /// Whether slippage and adjusted profit fit in 16 bits.
    pub open spec fn slip_fits(self, cost: Option<u16>) -> bool {
        fits_i16(self.slippage_at(cost)) && fits_i16(self.profit_at(cost))
    }

    /// This opportunity after an update that no longer saw it.
    pub open spec fn slipped(self, cost: Option<u16>, timestamp_ns: u64) -> TrackedOpportunity {
        TrackedOpportunity {
            state: OpportunityState::Slipped,
            duration_ns: elapsed(self.detected_at_ns, timestamp_ns),
            final_cost: cost,
            estimated_slippage: self.slippage_at(cost) as i16,
            adjusted_profit: self.profit_at(cost) as i16,
            ..self
        }
    }

    /// What vanishing does to the estimated fill probability: the sooner, the worse.
    pub open spec fn slip_step(self) -> FillStep {
        if self.ticks_valid <= 1 {
            FillStep::Scale { factor_bits: VANISHED_FACTOR_BITS }
        } else if self.ticks_valid <= 3 {
            FillStep::Scale { factor_bits: FLEETING_FACTOR_BITS }
        } else {
            FillStep::Keep
        }
    }

    /// This opportunity once it has been closed at the end of a session.
    pub open spec fn closed(self, timestamp_ns: u64) -> TrackedOpportunity {
        TrackedOpportunity {
            state: OpportunityState::ClosedProfitable,
            duration_ns: elapsed(self.detected_at_ns, timestamp_ns),
            estimated_fill_prob_bits: FILL_LASTED_BITS,
            ..self
        }
    }

    /// Whether the range of costs seen holds the cost at detection, and at least
    /// one update saw the opportunity.
    pub open spec fn consistent(self) -> bool {
        &&& self.best_cost_seen <= self.detected_cost <= self.worst_cost_seen
        &&& self.ticks_valid >= 1
        &&& self.state is Detected ==> self.ticks_valid == 1
        &&& self.state is Confirmed ==> self.ticks_valid >= 2
    }

    /// Whether two records are of the same detection: what was written down when
    /// the opportunity was detected agrees.
    pub open spec fn same_detection(self, other: TrackedOpportunity) -> bool {
        &&& self.id == other.id
        &&& self.strategy_id == other.strategy_id
        &&& self.market_id == other.market_id
        &&& self.market_description == other.market_description
        &&& self.arb_type == other.arb_type
        &&& self.detected_at_ns == other.detected_at_ns
        &&& self.detected_cost == other.detected_cost
        &&& self.detected_profit == other.detected_profit
        &&& self.detected_yes_price == other.detected_yes_price
        &&& self.detected_no_price == other.detected_no_price
        &&& self.detected_yes_size == other.detected_yes_size
        &&& self.detected_no_size == other.detected_no_size
        &&& self.detected_confidence_bits == other.detected_confidence_bits
    }

    /// A new opportunity from a signal, with its description.
    pub fn from_described_signal(signal: &StrategySignal, description: String) -> (opp: Self)
        ensures
            opp == Self::detected(*signal, description),
    {
        let min_size: u16 = if signal.yes_size <= signal.no_size {
            signal.yes_size
        } else {
            signal.no_size
        };
        let fill: u64 = if min_size >= 1000 {
            FILL_DEEP_BITS
        } else if min_size >= 500 {
            FILL_GOOD_BITS
        } else if min_size >= 200 {
            FILL_THIN_BITS
        } else {
            FILL_POOR_BITS
        };
        TrackedOpportunity {
            id: 0,
            strategy_id: signal.strategy_id.clone(),
            market_id: signal.market_id,
            market_description: description,
            arb_type: signal.arb_type,
            detected_at_ns: signal.timestamp_ns,
            detected_cost: signal.cost_cents,
            detected_profit: signal.profit_cents,
            detected_yes_price: signal.yes_price,
            detected_no_price: signal.no_price,
            detected_yes_size: signal.yes_size,
            detected_no_size: signal.no_size,
            detected_confidence_bits: signal.confidence_bits,
            state: OpportunityState::Detected,
            ticks_valid: 1,
            last_seen_ns: signal.timestamp_ns,
            duration_ns: 0,
            worst_cost_seen: signal.cost_cents,
            best_cost_seen: signal.cost_cents,
            final_cost: None,
            estimated_fill_prob_bits: fill,
            estimated_slippage: 0,
            adjusted_profit: signal.profit_cents,
        }
    }

    /// A new opportunity from a signal.
    pub fn from_signal(signal: &StrategySignal, market_description: &str) -> (opp: Self)
        ensures
            opp == Self::detected(*signal, opp.market_description),
            opp.market_description@ == market_description@,
    {
        Self::from_described_signal(signal, market_description.to_owned())
    }

    /// Whether an update that no longer sees this opportunity can be taken:
    /// slippage and adjusted profit fit in 16 bits.
    pub fn can_slip(&self, cost: Option<u16>) -> (fits: bool)
        ensures
            fits == self.slip_fits(cost),
    {
        let slippage: i32 = match cost {
            Some(c) => cents(c) - cents(self.detected_cost),
            None => self.estimated_slippage as i32,
        };
        let profit: i32 = if slippage > 0 {
            self.detected_profit as i32 - slippage
        } else {
            self.detected_profit as i32
        };
        -0x8000 <= slippage && slippage < 0x8000 && -0x8000 <= profit
    }

    /// Takes a price update, which either still saw this opportunity or no longer
    /// did. All but the estimated fill probability is brought up to date; what is
    /// to be done to that is returned.
    pub fn update(
        &mut self,
        still_valid: bool,
        current_cost: Option<u16>,
        timestamp_ns: u64,
    ) -> (step:
        FillStep)
        requires
            still_valid ==> old(self).ticks_valid < u32::MAX,
            !still_valid ==> old(self).slip_fits(current_cost),
        ensures
            still_valid ==> *final(self) == old(self).confirmed(current_cost, timestamp_ns),
            still_valid ==> step == (FillStep::Grow {
                duration_ns: elapsed(old(self).detected_at_ns, timestamp_ns),
            }),
            !still_valid ==> *final(self) == old(self).slipped(current_cost, timestamp_ns),
            !still_valid ==> step == old(self).slip_step(),
    {
        if still_valid {
            self.ticks_valid = self.ticks_valid + 1;
            self.state = OpportunityState::Confirmed;
            self.last_seen_ns = timestamp_ns;
            self.duration_ns = time_between(self.detected_at_ns, timestamp_ns);
            if let Some(cost) = current_cost {
                if cost > self.worst_cost_seen {
                    self.worst_cost_seen = cost;
                }
                if cost < self.best_cost_seen {
                    self.best_cost_seen = cost;
                }
            }
            FillStep::Grow { duration_ns: self.duration_ns }
        } else {
            self.state = OpportunityState::Slipped;
            self.duration_ns = time_between(self.detected_at_ns, timestamp_ns);
            self.final_cost = current_cost;
            if let Some(cost) = current_cost {
                self.estimated_slippage = (cents(cost) - cents(self.detected_cost)) as i16;
            }
            self.adjusted_profit = if self.estimated_slippage > 0 {
                (self.detected_profit as i32 - self.estimated_slippage as i32) as i16
            } else {
                self.detected_profit
            };
            if self.ticks_valid <= 1 {
                FillStep::Scale { factor_bits: VANISHED_FACTOR_BITS }
            } else if self.ticks_valid <= 3 {
                FillStep::Scale { factor_bits: FLEETING_FACTOR_BITS }
            } else {
                FillStep::Keep
            }
        }
    }

    /// Marks this opportunity as closed profitably: it lasted to the end.
    pub fn close_profitable(&mut self, timestamp_ns: u64)
        ensures
            *final(self) == old(self).closed(timestamp_ns),
    {
        self.state = OpportunityState::ClosedProfitable;
        self.duration_ns = time_between(self.detected_at_ns, timestamp_ns);
        self.estimated_fill_prob_bits = FILL_LASTED_BITS;
    }
}

/// A new opportunity is consistent, and it is the one that the signal reports.
pub proof fn detection_starts_consistent(signal: StrategySignal, description: String)
    ensures
        TrackedOpportunity::detected(signal, description).consistent(),
        TrackedOpportunity::detected(signal, description).key() == signal.key(),
{
}

/// No update rewrites what was written down at detection, and each keeps the
/// record consistent.
pub proof fn updates_keep_the_detection(
    opp: TrackedOpportunity,
    cost: Option<u16>,
    timestamp_ns: u64,
)
    requires
        opp.consistent(),
        opp.ticks_valid < u32::MAX,
    ensures
        opp.confirmed(cost, timestamp_ns).same_detection(opp),
        opp.confirmed(cost, timestamp_ns).consistent(),
        opp.slipped(cost, timestamp_ns).same_detection(opp),
        opp.slipped(cost, timestamp_ns).consistent(),
        opp.closed(timestamp_ns).same_detection(opp),
        opp.closed(timestamp_ns).consistent(),
{
}

/// The range of costs seen only widens, and holds every cost that a confirming
/// update brought.
pub proof fn confirming_widens_the_range(opp: TrackedOpportunity, cost: u16, timestamp_ns: u64)
    ensures
        opp.confirmed(Some(cost), timestamp_ns).best_cost_seen <= cost,
        cost <= opp.confirmed(Some(cost), timestamp_ns).worst_cost_seen,
        opp.confirmed(Some(cost), timestamp_ns).best_cost_seen <= opp.best_cost_seen,
        opp.worst_cost_seen <= opp.confirmed(Some(cost), timestamp_ns).worst_cost_seen,
{
}

/// Slipping never raises the profit, and lowers it by exactly the slippage where
/// the cost rose.
pub proof fn slipping_never_raises_the_profit(
    opp: TrackedOpportunity,
    cost: Option<u16>,
    timestamp_ns: u64,
)
    requires
        opp.slip_fits(cost),
    ensures
        opp.slipped(cost, timestamp_ns).adjusted_profit <= opp.detected_profit,
        opp.slipped(cost, timestamp_ns).estimated_slippage > 0 ==> opp.slipped(
            cost,
            timestamp_ns,
        ).adjusted_profit == opp.detected_profit - opp.slipped(
            cost,
            timestamp_ns,
        ).estimated_slippage,
        opp.slipped(cost, timestamp_ns).estimated_slippage <= 0 ==> opp.slipped(
            cost,
            timestamp_ns,
        ).adjusted_profit == opp.detected_profit,
{
}

/// For prices up to 327.67 dollars, the slippage is the difference between the
/// cost at the end and the cost at detection.
pub proof fn slippage_is_the_price_difference(opp: TrackedOpportunity, cost: u16, timestamp_ns: u64)
    requires
        opp.slip_fits(Some(cost)),
        cost < 0x8000,
        opp.detected_cost < 0x8000,
    ensures
        opp.slipped(Some(cost), timestamp_ns).estimated_slippage == cost - opp.detected_cost,
{
}

/// A new record holds what its signal reports, and nothing has happened to it yet: it
/// was seen once, at its own cost, has lost nothing, and its profit is the signal's.
pub proof fn new_record_copies_its_signal(signal: StrategySignal, description: String)
    ensures
        ({
            let opp = TrackedOpportunity::detected(signal, description);
            &&& opp.id == 0
            &&& opp.strategy_id == signal.strategy_id
            &&& opp.market_id == signal.market_id
            &&& opp.market_description == description
            &&& opp.arb_type == signal.arb_type
            &&& opp.detected_at_ns == signal.timestamp_ns
            &&& opp.last_seen_ns == signal.timestamp_ns
            &&& opp.detected_cost == signal.cost_cents
            &&& opp.worst_cost_seen == signal.cost_cents
            &&& opp.best_cost_seen == signal.cost_cents
            &&& opp.detected_profit == signal.profit_cents
            &&& opp.adjusted_profit == signal.profit_cents
            &&& opp.detected_yes_price == signal.yes_price
            &&& opp.detected_no_price == signal.no_price
            &&& opp.detected_yes_size == signal.yes_size
            &&& opp.detected_no_size == signal.no_size
            &&& opp.detected_confidence_bits == signal.confidence_bits
            &&& opp.state is Detected
            &&& opp.ticks_valid == 1
            &&& opp.duration_ns == 0
            &&& opp.final_cost is None
            &&& opp.estimated_slippage == 0
        }),
{
}

/// The first estimate of the fill probability is 0.8 where both legs hold ten dollars
/// or more, else 0.6 where both hold five, else 0.4 where both hold two, else 0.2.
pub proof fn first_estimate_goes_by_both_legs(signal: StrategySignal, description: String)
    ensures
        ({
            let bits = TrackedOpportunity::detected(signal, description).estimated_fill_prob_bits;
            let both_hold = |size: int| signal.yes_size >= size && signal.no_size >= size;
            &&& both_hold(1000) ==> bits == 0x3FE9_9999_9999_999A
            &&& both_hold(500) && !both_hold(1000) ==> bits == 0x3FE3_3333_3333_3333
            &&& both_hold(200) && !both_hold(500) ==> bits == 0x3FD9_9999_9999_999A
            &&& !both_hold(200) ==> bits == 0x3FC9_9999_9999_999A
        }),
{
}

/// Being seen again counts one more update and moves the last sighting to its moment;
/// the costs seen take in the new cost, the duration is the time since the detection,
/// and all else stays.
pub proof fn seeing_again_changes_only_the_sighting(
    opp: TrackedOpportunity,
    cost: Option<u16>,
    timestamp_ns: u64,
)
    requires
        opp.ticks_valid < u32::MAX,
    ensures
        ({
            let after = opp.confirmed(cost, timestamp_ns);
            &&& after.state is Confirmed
            &&& after.ticks_valid == opp.ticks_valid + 1
            &&& after.last_seen_ns == timestamp_ns
            &&& timestamp_ns >= opp.detected_at_ns ==> after.duration_ns == timestamp_ns
                - opp.detected_at_ns
            &&& timestamp_ns < opp.detected_at_ns ==> after.duration_ns == 0
            &&& cost is None ==> after.worst_cost_seen == opp.worst_cost_seen
                && after.best_cost_seen == opp.best_cost_seen
            &&& cost matches Some(c) ==> {
                &&& after.worst_cost_seen >= c && after.worst_cost_seen >= opp.worst_cost_seen
                &&& after.worst_cost_seen == c || after.worst_cost_seen == opp.worst_cost_seen
                &&& after.best_cost_seen <= c && after.best_cost_seen <= opp.best_cost_seen
                &&& after.best_cost_seen == c || after.best_cost_seen == opp.best_cost_seen
            }
            &&& after == (TrackedOpportunity {
                state: after.state,
                ticks_valid: after.ticks_valid,
                last_seen_ns: after.last_seen_ns,
                duration_ns: after.duration_ns,
                worst_cost_seen: after.worst_cost_seen,
                best_cost_seen: after.best_cost_seen,
                ..opp
            })
        }),
{
}

/// Vanishing marks a record as slipped, keeps the cost at which it vanished, and takes
/// the time since the detection. The slippage is what the cost rose by, read in 16
/// signed bits; a rise lowers the profit by as much, and nothing raises it. The
/// sightings, the costs seen and the detection stay.
pub proof fn vanishing_changes_only_the_outcome(
    opp: TrackedOpportunity,
    cost: Option<u16>,
    timestamp_ns: u64,
)
    requires
        opp.slip_fits(cost),
    ensures
        ({
            let after = opp.slipped(cost, timestamp_ns);
            let signed = |raw: u16| if raw < 0x8000 { raw as int } else { raw - 0x1_0000 };
            &&& after.state is Slipped
            &&& after.final_cost == cost
            &&& timestamp_ns >= opp.detected_at_ns ==> after.duration_ns == timestamp_ns
                - opp.detected_at_ns
            &&& timestamp_ns < opp.detected_at_ns ==> after.duration_ns == 0
            &&& cost matches Some(c) ==> after.estimated_slippage == signed(c) - signed(
                opp.detected_cost,
            )
            &&& cost is None ==> after.estimated_slippage == opp.estimated_slippage
            &&& after.estimated_slippage > 0 ==> after.adjusted_profit == opp.detected_profit
                - after.estimated_slippage
            &&& after.estimated_slippage <= 0 ==> after.adjusted_profit == opp.detected_profit
            &&& after == (TrackedOpportunity {
                state: after.state,
                final_cost: after.final_cost,
                duration_ns: after.duration_ns,
                estimated_slippage: after.estimated_slippage,
                adjusted_profit: after.adjusted_profit,
                ..opp
            })
        }),
{
}

/// A vanishing can be taken exactly where the slippage, and the profit that it leaves,
/// fit in 16 signed bits.
pub proof fn vanishing_fits_where_its_numbers_do(opp: TrackedOpportunity, cost: u16)
    requires
        cost < 0x8000,
        opp.detected_cost < 0x8000,
    ensures
        opp.slip_fits(Some(cost)) <==> cost <= opp.detected_cost || opp.detected_profit - (cost
            - opp.detected_cost) >= -0x8000,
{
}

/// What is left of the fill probability after vanishing: a fifth where one update saw
/// the opportunity, half where two or three did, and all where more did.
pub proof fn vanishing_late_costs_less(opp: TrackedOpportunity)
    ensures
        opp.ticks_valid <= 1 ==> opp.slip_step() == (FillStep::Scale {
            factor_bits: 0x3FC9_9999_9999_999A,
        }),
        2 <= opp.ticks_valid <= 3 ==> opp.slip_step() == (FillStep::Scale {
            factor_bits: 0x3FE0_0000_0000_0000,
        }),
        opp.ticks_valid > 3 ==> opp.slip_step() == FillStep::Keep,
{
}

/// Closing marks a record as closed profitably, with the time since the detection and a
/// fill probability of 0.9. Its profit, its costs and its sightings stay.
pub proof fn closing_keeps_the_profit(opp: TrackedOpportunity, timestamp_ns: u64)
    ensures
        ({
            let after = opp.closed(timestamp_ns);
            &&& after.state is ClosedProfitable
            &&& after.estimated_fill_prob_bits == 0x3FEC_CCCC_CCCC_CCCD
            &&& timestamp_ns >= opp.detected_at_ns ==> after.duration_ns == timestamp_ns
                - opp.detected_at_ns
            &&& timestamp_ns < opp.detected_at_ns ==> after.duration_ns == 0
            &&& after == (TrackedOpportunity {
                state: after.state,
                estimated_fill_prob_bits: after.estimated_fill_prob_bits,
                duration_ns: after.duration_ns,
                ..opp
            })
        }),
{
}

/// A record is the same opportunity as another exactly where strategy, market and legs
/// agree, and so is a signal.
pub proof fn keys_tell_opportunities_apart(
    a: TrackedOpportunity,
    b: TrackedOpportunity,
    signal: StrategySignal,
)
    ensures
        a.key() == b.key() <==> a.strategy_id@ == b.strategy_id@ && a.market_id == b.market_id
            && a.arb_type == b.arb_type,
        a.key() == signal.key() <==> a.strategy_id@ == signal.strategy_id@ && a.market_id
            == signal.market_id && a.arb_type == signal.arb_type,
{
}

/// The states are stored under these names.
pub proof fn states_have_their_names()
    ensures
        OpportunityState::Detected.label() == "detected"@,
        OpportunityState::Confirmed.label() == "confirmed"@,
        OpportunityState::Slipped.label() == "slipped"@,
        OpportunityState::ClosedProfitable.label() == "closed_profitable"@,
        OpportunityState::Expired.label() == "expired"@,
{
}

/// The fill probability grows by 0.1 for each second, up to 0.95.
pub proof fn estimates_grow_by_these_numbers()
    ensures
        BONUS_PER_SECOND_BITS == 0x3FB9_9999_9999_999A,
        FILL_CAP_BITS == 0x3FEE_6666_6666_6666,
{
}

} // verus!
