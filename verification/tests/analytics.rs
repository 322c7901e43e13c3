use backtest::analytics::{
    group_names, highest, AnalyticsError, BacktestAnalytics, Estimates, GroupEstimates, Grouping,
    Mean, OpportunityRow,
};
use backtest::opportunity::OpportunityState;
use backtest::ranking::{lowest, order_texts};

fn row(strategy: &str, state: OpportunityState, profit: i32) -> OpportunityRow {
    OpportunityRow {
        strategy_id: strategy.to_string(),
        arb_type: "PolyOnly".to_string(),
        state,
        detected_profit: profit,
        adjusted_profit: Some(profit - 1),
        estimated_slippage: Some(0),
        ticks_valid: 2,
        duration_ns: Some(1_000_000),
    }
}

fn slipped(strategy: &str, slippage: Option<i32>, ticks: u32) -> OpportunityRow {
    OpportunityRow {
        estimated_slippage: slippage,
        ticks_valid: ticks,
        ..row(strategy, OpportunityState::Slipped, 4)
    }
}

fn known(name: &str, expected: Option<f64>) -> GroupEstimates {
    GroupEstimates {
        name: name.to_string(),
        estimates: Estimates {
            avg_fill_probability_bits: Some(0.5f64.to_bits()),
            expected_profit_bits: expected.map(f64::to_bits),
        },
    }
}

fn none() -> Estimates {
    Estimates { avg_fill_probability_bits: None, expected_profit_bits: None }
}

#[test]
fn a_summary_counts_and_sums() {
    let mut rows = vec![
        row("a", OpportunityState::Confirmed, 5),
        row("a", OpportunityState::ClosedProfitable, 7),
        row("b", OpportunityState::Slipped, -3),
        row("b", OpportunityState::Detected, 1),
        row("b", OpportunityState::Expired, 2),
    ];
    rows[3].adjusted_profit = None;
    rows[4].duration_ns = None;
    let estimates = Estimates {
        avg_fill_probability_bits: Some(0.25f64.to_bits()),
        expected_profit_bits: Some(3.5f64.to_bits()),
    };
    let summary = BacktestAnalytics { rows }.session_summary("session_1", estimates).unwrap();
    assert_eq!(summary.session_id, "session_1");
    assert_eq!(summary.total_opportunities, 5);
    assert_eq!(summary.confirmed, 2);
    assert_eq!(summary.slipped, 1);
    assert_eq!(summary.avg_profit, Mean { sum: 12, count: 5 });
    assert_eq!(summary.avg_adjusted_profit, Mean { sum: 7, count: 4 });
    assert_eq!(summary.avg_duration_ns, Mean { sum: 4_000_000, count: 4 });
    assert_eq!(summary.avg_ticks_valid, Mean { sum: 10, count: 5 });
    assert_eq!(summary.total_theoretical_profit(), 12);
    assert_eq!(summary.estimates, estimates);
}

#[test]
fn there_is_no_summary_of_nothing() {
    let analytics = BacktestAnalytics { rows: vec![] };
    assert_eq!(
        analytics.session_summary("s", none()).unwrap_err(),
        AnalyticsError::NoOpportunities
    );
}

#[test]
fn slippage_is_analysed_over_what_slipped() {
    let rows = vec![
        slipped("a", Some(7), 3),
        slipped("a", Some(-2), 1),
        slipped("b", Some(0), 1),
        slipped("b", None, 4),
        OpportunityRow {
            estimated_slippage: Some(99),
            ..row("b", OpportunityState::Confirmed, 1)
        },
    ];
    let analysis = BacktestAnalytics { rows }.slippage_analysis().unwrap();
    assert_eq!(analysis.avg_slippage, Mean { sum: 5, count: 3 });
    assert_eq!(analysis.max_slippage, Some(7));
    assert_eq!(analysis.min_slippage, Some(-2));
    assert_eq!(analysis.positive_slippage_count, 1);
    assert_eq!(analysis.zero_or_negative_count, 2);
    assert_eq!(analysis.avg_ticks_before_slip, Mean { sum: 9, count: 4 });
}

#[test]
fn where_nothing_slipped_there_is_no_slippage() {
    let rows = vec![row("a", OpportunityState::Confirmed, 1)];
    let analysis = BacktestAnalytics { rows }.slippage_analysis().unwrap();
    assert_eq!(analysis.avg_slippage, Mean { sum: 0, count: 0 });
    assert_eq!(analysis.max_slippage, None);
    assert_eq!(analysis.min_slippage, None);
    assert_eq!(analysis.positive_slippage_count, 0);
}

#[test]
fn strategies_come_by_expected_profit() {
    let rows = vec![
        row("poor", OpportunityState::Confirmed, 1),
        row("rich", OpportunityState::Slipped, 9),
        row("unknown", OpportunityState::Detected, 2),
        row("rich", OpportunityState::Confirmed, 8),
        row("loss", OpportunityState::Detected, 2),
    ];
    let estimates = vec![
        known("poor", Some(0.5)),
        known("rich", Some(12.25)),
        known("unknown", None),
        known("loss", Some(-3.0)),
    ];
    let analytics = BacktestAnalytics { rows };
    let stats = analytics.strategy_breakdown(&estimates).unwrap();
    let order: Vec<&str> = stats.iter().map(|s| s.strategy_id.as_str()).collect();
    assert_eq!(order, vec!["rich", "poor", "loss", "unknown"]);
    assert_eq!(stats[0].total_opportunities, 2);
    assert_eq!(stats[0].confirmed, 1);
    assert_eq!(stats[0].slipped, 1);
    assert_eq!(stats[0].avg_profit, Mean { sum: 17, count: 2 });
    assert_eq!(stats[0].estimates.expected_profit_bits, Some(12.25f64.to_bits()));
    assert_eq!(
        analytics.best_expected_profit(&estimates),
        Some(("rich".to_string(), 12.25f64.to_bits()))
    );
}

#[test]
fn no_strategy_is_best_without_an_expected_profit() {
    assert_eq!(BacktestAnalytics { rows: vec![] }.best_expected_profit(&vec![]), None);
    let rows = vec![row("a", OpportunityState::Confirmed, 1)];
    assert_eq!(BacktestAnalytics { rows }.best_expected_profit(&vec![known("a", None)]), None);
}

#[test]
fn kinds_come_by_frequency() {
    let mut rows = vec![
        row("a", OpportunityState::Confirmed, 1),
        row("a", OpportunityState::Confirmed, 2),
        row("a", OpportunityState::Confirmed, 3),
    ];
    rows[0].arb_type = "KalshiOnly".to_string();
    let stats = BacktestAnalytics { rows }.arb_type_breakdown(&vec![known("PolyOnly", Some(1.0))]).unwrap();
    assert_eq!(stats.len(), 2);
    assert_eq!(stats[0].arb_type, "PolyOnly");
    assert_eq!(stats[0].total_opportunities, 2);
    assert_eq!(stats[0].avg_profit, Mean { sum: 5, count: 2 });
    assert_eq!(stats[1].arb_type, "KalshiOnly");
    assert_eq!(stats[1].estimates, none());
}

#[test]
fn the_best_rate_is_among_strategies_with_more_than_ten() {
    let mut rows = vec![];
    for i in 0..11 {
        let state = if i < 6 { OpportunityState::Confirmed } else { OpportunityState::Slipped };
        rows.push(row("half", state, 1));
    }
    for i in 0..22 {
        let state = if i < 13 { OpportunityState::ClosedProfitable } else { OpportunityState::Slipped };
        rows.push(row("more", state, 1));
    }
    for _ in 0..10 {
        rows.push(row("few", OpportunityState::Confirmed, 1));
    }
    let analytics = BacktestAnalytics { rows };
    assert_eq!(analytics.best_confirmation_rate(), Ok(Some(("more".to_string(), 13, 22))));
}

#[test]
fn ten_are_too_few_for_a_rate() {
    let rows = (0..10).map(|_| row("few", OpportunityState::Confirmed, 1)).collect();
    assert_eq!(BacktestAnalytics { rows }.best_confirmation_rate(), Ok(None));
}

#[test]
fn the_lowest_slippage_is_among_strategies_that_slipped_more_than_five_times() {
    let mut rows = vec![];
    for i in 0..6 {
        rows.push(slipped("calm", Some(if i == 0 { 3 } else { 0 }), 1));
        rows.push(slipped("wild", Some(2), 1));
    }
    for _ in 0..5 {
        rows.push(slipped("few", Some(-9), 1));
    }
    let analytics = BacktestAnalytics { rows };
    assert_eq!(
        analytics.lowest_slippage(),
        Ok(Some(("calm".to_string(), Mean { sum: 3, count: 6 })))
    );
}

#[test]
fn a_strategy_without_any_slippage_leaves_no_lowest() {
    let mut rows = vec![];
    for _ in 0..6 {
        rows.push(slipped("calm", Some(1), 1));
        rows.push(slipped("blank", None, 1));
    }
    assert_eq!(BacktestAnalytics { rows }.lowest_slippage(), Ok(None));
    let few = (0..5).map(|_| slipped("few", Some(1), 1)).collect();
    assert_eq!(BacktestAnalytics { rows: few }.lowest_slippage(), Ok(None));
}

#[test]
fn groups_partition_and_come_in_order_of_appearance() {
    let rows = vec![
        row("b", OpportunityState::Confirmed, 1),
        row("a", OpportunityState::Confirmed, 1),
        row("b", OpportunityState::Slipped, 1),
    ];
    assert_eq!(group_names(&rows, Grouping::Strategy), vec!["b", "a"]);
    assert_eq!(group_names(&rows, Grouping::ArbType), vec!["PolyOnly"]);
    let stats = BacktestAnalytics { rows }.strategy_breakdown(&vec![]).unwrap();
    let total: u32 = stats.iter().map(|s| s.total_opportunities).sum();
    assert_eq!(total, 3);
    for s in &stats {
        assert!(s.confirmed + s.slipped <= s.total_opportunities);
    }
}

#[test]
fn doubles_are_ordered_as_numbers() {
    let values: Vec<Option<u64>> = vec![
        Some((-0.0f64).to_bits()),
        Some(1.5f64.to_bits()),
        None,
        Some((-2.5f64).to_bits()),
        Some(0.0f64.to_bits()),
        Some(1e300f64.to_bits()),
        Some((-1e-300f64).to_bits()),
    ];
    assert_eq!(highest(&values, 10), vec![5, 1, 0, 4, 6, 3, 2]);
    assert_eq!(highest(&values, 2), vec![5, 1]);
    assert!(highest(&vec![], 10).is_empty());
}

#[test]
fn the_lowest_keys_are_picked_in_order() {
    let keys: Vec<i128> = vec![5, -1, 3, -1, 9];
    assert_eq!(lowest(&keys, 3), vec![1, 3, 2]);
    assert_eq!(lowest(&keys, 9), vec![1, 3, 2, 0, 4]);
    assert!(lowest(&keys, 0).is_empty());
}

#[test]
fn texts_are_ordered_by_code_points() {
    let list: Vec<String> =
        vec!["b", "", "ab", "a", "Z", "é", "ab"].into_iter().map(String::from).collect();
    assert_eq!(order_texts(&list, false, 9), vec![1, 4, 3, 2, 6, 0, 5]);
    let last = order_texts(&list, true, 3);
    assert_eq!(last, vec![5, 0, 2]);
    for x in 0..list.len() {
        if !last.contains(&x) {
            for i in &last {
                assert!(list[x] <= list[*i]);
            }
        }
    }
    let mut sorted = list.clone();
    sorted.sort();
    let picked: Vec<String> =
        order_texts(&list, false, list.len()).into_iter().map(|i| list[i].clone()).collect();
    assert_eq!(picked, sorted);
}
