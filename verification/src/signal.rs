//! What the strategies report: kinds of arbitrage, price snapshots and signals.

use crate::text::same_text;
use vstd::prelude::*;

verus! {

/// The two legs that an arbitrage buys.
#[derive(Debug, Clone, Copy, PartialEq, Eq, Structural)]
pub enum ArbType {
    /// YES on Polymarket, NO on Kalshi.
    PolyYesKalshiNo,
    /// YES on Kalshi, NO on Polymarket.
    KalshiYesPolyNo,
    /// Both legs on Polymarket.
    PolyOnly,
    /// Both legs on Kalshi.
    KalshiOnly,
}

impl ArbType {
    /// The name under which a kind is stored.
    pub open spec fn label(self) -> Seq<char> {
        match self {
            ArbType::PolyYesKalshiNo => "PolyYesKalshiNo"@,
            ArbType::KalshiYesPolyNo => "KalshiYesPolyNo"@,
            ArbType::PolyOnly => "PolyOnly"@,
            ArbType::KalshiOnly => "KalshiOnly"@,
        }
    }

    /// The name under which this kind is stored.
    pub fn name(&self) -> (name: &'static str)
        ensures
            name@ == self.label(),
    {
        match self {
            ArbType::PolyYesKalshiNo => "PolyYesKalshiNo",
            ArbType::KalshiYesPolyNo => "KalshiYesPolyNo",
            ArbType::PolyOnly => "PolyOnly",
            ArbType::KalshiOnly => "KalshiOnly",
        }
    }

    /// The position of a kind in the fixed order of the four kinds.
    pub open spec fn ordinal(self) -> u8 {
        match self {
            ArbType::PolyYesKalshiNo => 0,
            ArbType::KalshiYesPolyNo => 1,
            ArbType::PolyOnly => 2,
            ArbType::KalshiOnly => 3,
        }
    }
}

/// The position of a kind in the fixed order of the four kinds.
pub fn arb_type_ordinal(arb_type: ArbType) -> (ordinal: u8)
    ensures
        ordinal == arb_type.ordinal(),
{
    match arb_type {
        ArbType::PolyYesKalshiNo => 0,
        ArbType::KalshiYesPolyNo => 1,
        ArbType::PolyOnly => 2,
        ArbType::KalshiOnly => 3,
    }
}

/// An ordinal stands for exactly one kind of arbitrage.
pub proof fn ordinal_identifies_the_kind(a: ArbType, b: ArbType)
    ensures
        a.ordinal() == b.ordinal() <==> a == b,
        a.ordinal() < 4,
{
}

/// The prices and sizes of one market on both venues at one moment, in cents.
#[derive(Debug, Clone, Copy, PartialEq, Eq, Structural)]
pub struct MarketSnapshot {
    pub market_id: u16,
    pub kalshi_yes: u16,
    pub kalshi_no: u16,
    pub kalshi_yes_size: u16,
    pub kalshi_no_size: u16,
    pub poly_yes: u16,
    pub poly_no: u16,
    pub poly_yes_size: u16,
    pub poly_no_size: u16,
    pub timestamp_ns: u64,
}

impl MarketSnapshot {
    /// The same prices, taken at `timestamp_ns`.
    pub fn stamped(&self, timestamp_ns: u64) -> (snapshot: MarketSnapshot)
        ensures
            snapshot == (MarketSnapshot { timestamp_ns, ..*self }),
    {
        MarketSnapshot {
            market_id: self.market_id,
            kalshi_yes: self.kalshi_yes,
            kalshi_no: self.kalshi_no,
            kalshi_yes_size: self.kalshi_yes_size,
            kalshi_no_size: self.kalshi_no_size,
            poly_yes: self.poly_yes,
            poly_no: self.poly_no,
            poly_yes_size: self.poly_yes_size,
            poly_no_size: self.poly_no_size,
            timestamp_ns,
        }
    }
}

/// What each kind of arbitrage costs at one moment, in cents.
#[derive(Debug, Clone, Copy, PartialEq, Eq, Structural)]
pub struct ArbCosts {
    pub poly_yes_kalshi_no: u16,
    pub kalshi_yes_poly_no: u16,
    pub poly_only: u16,
    pub kalshi_only: u16,
}

impl ArbCosts {
    /// The cost of one kind of arbitrage.
    pub open spec fn cost(self, arb_type: ArbType) -> u16 {
        match arb_type {
            ArbType::PolyYesKalshiNo => self.poly_yes_kalshi_no,
            ArbType::KalshiYesPolyNo => self.kalshi_yes_poly_no,
            ArbType::PolyOnly => self.poly_only,
            ArbType::KalshiOnly => self.kalshi_only,
        }
    }

    /// The cost of one kind of arbitrage.
    pub fn cost_of(&self, arb_type: ArbType) -> (cost: u16)
        ensures
            cost == self.cost(arb_type),
    {
        match arb_type {
            ArbType::PolyYesKalshiNo => self.poly_yes_kalshi_no,
            ArbType::KalshiYesPolyNo => self.kalshi_yes_poly_no,
            ArbType::PolyOnly => self.poly_only,
            ArbType::KalshiOnly => self.kalshi_only,
        }
    }
}

/// One strategy's finding that a market can be bought below its payout.
#[derive(Debug)]
pub struct StrategySignal {
    pub strategy_id: String,
    pub market_id: u16,
    pub arb_type: ArbType,
    pub cost_cents: u16,
    pub profit_cents: i16,
    pub yes_price: u16,
    pub no_price: u16,
    pub yes_size: u16,
    pub no_size: u16,
    /// The strategy's confidence: the bits of an IEEE 754 double.
    pub confidence_bits: u64,
    pub timestamp_ns: u64,
}

impl Clone for StrategySignal {
    fn clone(&self) -> (copy: Self)
        ensures
            copy == *self,
    {
        StrategySignal {
            strategy_id: self.strategy_id.clone(),
            market_id: self.market_id,
            arb_type: self.arb_type,
            cost_cents: self.cost_cents,
            profit_cents: self.profit_cents,
            yes_price: self.yes_price,
            no_price: self.no_price,
            yes_size: self.yes_size,
            no_size: self.no_size,
            confidence_bits: self.confidence_bits,
            timestamp_ns: self.timestamp_ns,
        }
    }
}

/// What tells one opportunity from another: the strategy that found it, the
/// market it is in, and which legs it buys.
pub struct OpportunityKey {
    pub strategy: Seq<char>,
    pub market_id: u16,
    pub arb_type: ArbType,
}

impl StrategySignal {
    /// The opportunity that this signal reports.
    pub open spec fn key(self) -> OpportunityKey {
        OpportunityKey {
            strategy: self.strategy_id@,
            market_id: self.market_id,
            arb_type: self.arb_type,
        }
    }

    /// Whether this signal reports the opportunity of the given strategy, market
    /// and kind.
    pub fn reports(&self, strategy_id: &str, market_id: u16, arb_type: ArbType) -> (yes: bool)
        ensures
            yes == (self.key() == (OpportunityKey {
                strategy: strategy_id@,
                market_id,
                arb_type,
            })),
    {
        self.market_id == market_id && arb_type_ordinal(self.arb_type) == arb_type_ordinal(arb_type)
            && same_text(self.strategy_id.as_str(), strategy_id)
    }
}

/// Whether some signal reports the opportunity `key`.
pub open spec fn reported(signals: Seq<StrategySignal>, key: OpportunityKey) -> bool {
    exists|i: int| 0 <= i < signals.len() && (#[trigger] signals[i]).key() == key
}

/// Whether some signal reports the opportunity of the given strategy, market and kind.
pub fn any_reports(
    signals: &Vec<StrategySignal>,
    strategy_id: &str,
    market_id: u16,
    arb_type: ArbType,
) -> (yes: bool)
    ensures
        yes == reported(
            signals@,
            OpportunityKey { strategy: strategy_id@, market_id, arb_type },
        ),
{
    let mut i: usize = 0;
    let ghost key = OpportunityKey { strategy: strategy_id@, market_id, arb_type };
    while i < signals.len()
        invariant
            i <= signals@.len(),
            key == (OpportunityKey { strategy: strategy_id@, market_id, arb_type }),
            forall|j: int| 0 <= j < i ==> (#[trigger] signals@[j]).key() != key,
        decreases signals@.len() - i,
    {
        if signals[i].reports(strategy_id, market_id, arb_type) {
            assert(signals@[i as int].key() == key);
            return true;
        }
        i += 1;
    }
    false
}

/// Each kind costs what its own two legs cost.
pub proof fn each_kind_has_its_own_cost(costs: ArbCosts)
    ensures
        costs.cost(ArbType::PolyYesKalshiNo) == costs.poly_yes_kalshi_no,
        costs.cost(ArbType::KalshiYesPolyNo) == costs.kalshi_yes_poly_no,
        costs.cost(ArbType::PolyOnly) == costs.poly_only,
        costs.cost(ArbType::KalshiOnly) == costs.kalshi_only,
{
}

/// Two signals report the same opportunity exactly where strategy, market and legs
/// agree; an opportunity is reported exactly where one of the signals does.
pub proof fn signals_report_by_strategy_market_and_legs(
    signals: Seq<StrategySignal>,
    other: StrategySignal,
)
    ensures
        reported(signals, other.key()) <==> exists|i: int|
            0 <= i < signals.len() && (#[trigger] signals[i]).strategy_id@ == other.strategy_id@
                && signals[i].market_id == other.market_id && signals[i].arb_type
                == other.arb_type,
{
    if reported(signals, other.key()) {
        let i = choose|i: int| 0 <= i < signals.len() && (#[trigger] signals[i]).key() == other.key();
        assert(signals[i].strategy_id@ == other.strategy_id@);
    }
    if exists|i: int|
        0 <= i < signals.len() && (#[trigger] signals[i]).strategy_id@ == other.strategy_id@
            && signals[i].market_id == other.market_id && signals[i].arb_type == other.arb_type {
        let i = choose|i: int|
            0 <= i < signals.len() && (#[trigger] signals[i]).strategy_id@ == other.strategy_id@
                && signals[i].market_id == other.market_id && signals[i].arb_type
                == other.arb_type;
        assert(signals[i].key() == other.key());
    }
}

/// The kinds are stored under these names and numbers, and no two under the same.
pub proof fn kinds_have_their_names_and_numbers(a: ArbType, b: ArbType)
    ensures
        ArbType::PolyYesKalshiNo.label() == "PolyYesKalshiNo"@,
        ArbType::KalshiYesPolyNo.label() == "KalshiYesPolyNo"@,
        ArbType::PolyOnly.label() == "PolyOnly"@,
        ArbType::KalshiOnly.label() == "KalshiOnly"@,
        ArbType::PolyYesKalshiNo.ordinal() == 0,
        ArbType::KalshiYesPolyNo.ordinal() == 1,
        ArbType::PolyOnly.ordinal() == 2,
        ArbType::KalshiOnly.ordinal() == 3,
        a.label() == b.label() <==> a == b,
{
    reveal_strlit("PolyYesKalshiNo");
    reveal_strlit("KalshiYesPolyNo");
    reveal_strlit("PolyOnly");
    reveal_strlit("KalshiOnly");
    if a != b {
        assert(a.label().len() != b.label().len() || a.label()[0] != b.label()[0]);
    }
}

} // verus!
