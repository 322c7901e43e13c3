use backtest::opportunity::{
    FillStep, OpportunityState, TrackedOpportunity, BONUS_PER_SECOND_BITS, FILL_CAP_BITS,
    FILL_DEEP_BITS, FILL_GOOD_BITS, FILL_LASTED_BITS, FILL_POOR_BITS, FILL_THIN_BITS,
    FLEETING_FACTOR_BITS, VANISHED_FACTOR_BITS,
};
use backtest::signal::{arb_type_ordinal, any_reports, ArbCosts, ArbType, StrategySignal};

fn signal(yes_size: u16, no_size: u16) -> StrategySignal {
    StrategySignal {
        strategy_id: "test".to_string(),
        market_id: 1,
        arb_type: ArbType::PolyYesKalshiNo,
        cost_cents: 95,
        profit_cents: 5,
        yes_price: 45,
        no_price: 50,
        yes_size,
        no_size,
        confidence_bits: 0.8f64.to_bits(),
        timestamp_ns: 0,
    }
}

#[test]
fn test_tracked_opportunity_slippage() {
    let signal = StrategySignal {
        strategy_id: "test".into(),
        market_id: 1,
        arb_type: ArbType::PolyYesKalshiNo,
        cost_cents: 95,
        profit_cents: 5,
        yes_price: 45,
        no_price: 50,
        yes_size: 1000,
        no_size: 1000,
        confidence_bits: 0.8f64.to_bits(),
        timestamp_ns: 0,
    };

    let mut opp = TrackedOpportunity::from_signal(&signal, "Test Market");
    assert_eq!(opp.state, OpportunityState::Detected);

    // First update: still valid.
    opp.update(true, Some(96), 1_000_000);
    assert_eq!(opp.state, OpportunityState::Confirmed);
    assert_eq!(opp.ticks_valid, 2);

    // Second update: slipped.
    opp.update(false, Some(102), 2_000_000);
    assert_eq!(opp.state, OpportunityState::Slipped);
    assert_eq!(opp.estimated_slippage, 7); // 102 - 95
    assert_eq!(opp.adjusted_profit, -2); // 5 - 7
}

#[test]
fn constants_are_the_bits_of_their_doubles() {
    assert_eq!(FILL_DEEP_BITS, 0.8f64.to_bits());
    assert_eq!(FILL_GOOD_BITS, 0.6f64.to_bits());
    assert_eq!(FILL_THIN_BITS, 0.4f64.to_bits());
    assert_eq!(FILL_POOR_BITS, 0.2f64.to_bits());
    assert_eq!(FILL_LASTED_BITS, 0.9f64.to_bits());
    assert_eq!(BONUS_PER_SECOND_BITS, 0.1f64.to_bits());
    assert_eq!(FILL_CAP_BITS, 0.95f64.to_bits());
    assert_eq!(VANISHED_FACTOR_BITS, 0.2f64.to_bits());
    assert_eq!(FLEETING_FACTOR_BITS, 0.5f64.to_bits());
}

#[test]
fn first_estimate_follows_the_thinner_leg() {
    let cases: Vec<(u16, u16, f64)> = vec![
        (1000, 1000, 0.8),
        (65535, 1000, 0.8),
        (1000, 999, 0.6),
        (500, 9000, 0.6),
        (499, 9000, 0.4),
        (200, 200, 0.4),
        (9000, 199, 0.2),
        (0, 0, 0.2),
    ];
    for (yes, no, estimate) in cases {
        let opp = TrackedOpportunity::from_signal(&signal(yes, no), "m");
        assert_eq!(f64::from_bits(opp.estimated_fill_prob_bits), estimate);
    }
}

#[test]
fn detection_copies_the_signal() {
    let mut found = signal(700, 300);
    found.timestamp_ns = 42;
    let opp = TrackedOpportunity::from_signal(&found, "Arsenal, Chelsea");
    assert_eq!(opp.id, 0);
    assert_eq!(opp.strategy_id, "test");
    assert_eq!(opp.market_id, 1);
    assert_eq!(opp.market_description, "Arsenal, Chelsea");
    assert_eq!(opp.arb_type, ArbType::PolyYesKalshiNo);
    assert_eq!(opp.detected_at_ns, 42);
    assert_eq!(opp.last_seen_ns, 42);
    assert_eq!(opp.detected_cost, 95);
    assert_eq!(opp.detected_profit, 5);
    assert_eq!(opp.detected_yes_price, 45);
    assert_eq!(opp.detected_no_price, 50);
    assert_eq!(opp.detected_yes_size, 700);
    assert_eq!(opp.detected_no_size, 300);
    assert_eq!(f64::from_bits(opp.detected_confidence_bits), 0.8);
    assert_eq!(opp.ticks_valid, 1);
    assert_eq!(opp.duration_ns, 0);
    assert_eq!((opp.worst_cost_seen, opp.best_cost_seen), (95, 95));
    assert_eq!(opp.final_cost, None);
    assert_eq!(opp.estimated_slippage, 0);
    assert_eq!(opp.adjusted_profit, 5);
}

#[test]
fn confirming_widens_the_range_of_costs() {
    let mut opp = TrackedOpportunity::from_signal(&signal(1000, 1000), "m");
    let step = opp.update(true, Some(97), 3_000_000_000);
    assert_eq!(step, FillStep::Grow { duration_ns: 3_000_000_000 });
    assert_eq!((opp.worst_cost_seen, opp.best_cost_seen), (97, 95));
    opp.update(true, Some(93), 4_000_000_000);
    assert_eq!((opp.worst_cost_seen, opp.best_cost_seen), (97, 93));
    opp.update(true, None, 5_000_000_000);
    assert_eq!((opp.worst_cost_seen, opp.best_cost_seen), (97, 93));
    assert_eq!(opp.ticks_valid, 4);
    assert_eq!(opp.last_seen_ns, 5_000_000_000);
    assert_eq!(opp.duration_ns, 5_000_000_000);
}

#[test]
fn time_before_the_detection_counts_as_none() {
    let mut found = signal(1000, 1000);
    found.timestamp_ns = 10;
    let mut opp = TrackedOpportunity::from_signal(&found, "m");
    let step = opp.update(true, None, 4);
    assert_eq!(step, FillStep::Grow { duration_ns: 0 });
    assert_eq!(opp.duration_ns, 0);
    assert_eq!(opp.last_seen_ns, 4);
}

#[test]
fn the_sooner_it_vanishes_the_worse_the_estimate() {
    let mut at_once = TrackedOpportunity::from_signal(&signal(1000, 1000), "m");
    assert_eq!(
        at_once.update(false, Some(95), 1),
        FillStep::Scale { factor_bits: 0.2f64.to_bits() }
    );
    let mut soon = TrackedOpportunity::from_signal(&signal(1000, 1000), "m");
    soon.update(true, Some(95), 1);
    soon.update(true, Some(95), 2);
    assert_eq!(soon.update(false, Some(95), 3), FillStep::Scale { factor_bits: 0.5f64.to_bits() });
    let mut late = TrackedOpportunity::from_signal(&signal(1000, 1000), "m");
    late.update(true, Some(95), 1);
    late.update(true, Some(95), 2);
    late.update(true, Some(95), 3);
    assert_eq!(late.update(false, Some(95), 4), FillStep::Keep);
}

#[test]
fn negative_slippage_does_not_raise_the_profit() {
    let mut opp = TrackedOpportunity::from_signal(&signal(1000, 1000), "m");
    opp.update(false, Some(90), 7);
    assert_eq!(opp.estimated_slippage, -5);
    assert_eq!(opp.adjusted_profit, 5);
    assert_eq!(opp.final_cost, Some(90));
    assert_eq!(opp.duration_ns, 7);
}

#[test]
fn vanishing_without_a_cost_keeps_the_slippage() {
    let mut opp = TrackedOpportunity::from_signal(&signal(1000, 1000), "m");
    opp.update(false, None, 7);
    assert_eq!(opp.estimated_slippage, 0);
    assert_eq!(opp.adjusted_profit, 5);
    assert_eq!(opp.final_cost, None);
    assert_eq!(opp.state, OpportunityState::Slipped);
}

#[test]
fn costs_that_do_not_fit_are_told_beforehand() {
    let opp = TrackedOpportunity::from_signal(&signal(1000, 1000), "m");
    assert!(opp.can_slip(Some(102)));
    assert!(opp.can_slip(Some(32767)));
    // 32768 reads as -32768, and that less 95 does not fit in 16 bits.
    assert!(!opp.can_slip(Some(32768)));
    assert!(opp.can_slip(Some(65535)));
    assert!(opp.can_slip(None));
}

#[test]
fn closing_keeps_the_profit() {
    let mut opp = TrackedOpportunity::from_signal(&signal(100, 100), "m");
    opp.close_profitable(9);
    assert_eq!(opp.state, OpportunityState::ClosedProfitable);
    assert_eq!(opp.duration_ns, 9);
    assert_eq!(f64::from_bits(opp.estimated_fill_prob_bits), 0.9);
    assert_eq!(opp.adjusted_profit, 5);
}

#[test]
fn states_read_back_from_their_names() {
    let states: Vec<(OpportunityState, &str)> = vec![
        (OpportunityState::Detected, "detected"),
        (OpportunityState::Confirmed, "confirmed"),
        (OpportunityState::Slipped, "slipped"),
        (OpportunityState::ClosedProfitable, "closed_profitable"),
        (OpportunityState::Expired, "expired"),
    ];
    for (state, name) in states {
        assert_eq!(state.as_str(), name);
        assert_eq!(OpportunityState::from_str(name), state);
    }
    assert_eq!(OpportunityState::from_str("anything else"), OpportunityState::Detected);
    assert_eq!(OpportunityState::from_str(""), OpportunityState::Detected);
    assert_eq!(OpportunityState::from_str("Slipped"), OpportunityState::Detected);
}

#[test]
fn kinds_have_their_ordinals_names_and_costs() {
    let costs = ArbCosts {
        poly_yes_kalshi_no: 91,
        kalshi_yes_poly_no: 92,
        poly_only: 93,
        kalshi_only: 94,
    };
    let kinds: Vec<(ArbType, u8, &str, u16)> = vec![
        (ArbType::PolyYesKalshiNo, 0, "PolyYesKalshiNo", 91),
        (ArbType::KalshiYesPolyNo, 1, "KalshiYesPolyNo", 92),
        (ArbType::PolyOnly, 2, "PolyOnly", 93),
        (ArbType::KalshiOnly, 3, "KalshiOnly", 94),
    ];
    for (kind, ordinal, name, cost) in kinds {
        assert_eq!(arb_type_ordinal(kind), ordinal);
        assert_eq!(kind.name(), name);
        assert_eq!(format!("{:?}", kind), name);
        assert_eq!(costs.cost_of(kind), cost);
    }
}

#[test]
fn a_signal_reports_its_own_opportunity_only() {
    let signals = vec![signal(1, 1)];
    assert!(any_reports(&signals, "test", 1, ArbType::PolyYesKalshiNo));
    assert!(!any_reports(&signals, "tests", 1, ArbType::PolyYesKalshiNo));
    assert!(!any_reports(&signals, "test", 2, ArbType::PolyYesKalshiNo));
    assert!(!any_reports(&signals, "test", 1, ArbType::KalshiOnly));
    assert!(!any_reports(&vec![], "test", 1, ArbType::PolyYesKalshiNo));
}
