use backtest::analytics::{ArbTypeStats, Estimates, Mean, SlippageAnalysis, StrategyStats};
use backtest::pages::{
    compared_strategies, comparison_opening, recommendations, session_arb_types, session_best,
    session_list, session_list_opening, session_opening, session_overview, session_slippage, session_strategies,
    session_totals, short_opening, short_slippage, short_strategies, short_totals, strategy_list,
    ArbTypeLine, ComparisonLine, Recommended, StrategyLine, TopLine,
};
use backtest::layout::{banner, closing, spaced_closing};
use backtest::report::{
    best_profit_line, can_show_moments, session_row, ComparisonTexts, StrategyRecord, SummaryTexts,
    TopOpportunity,
};
use backtest::sessions::SessionInfo;

fn info(ended: Option<&str>) -> SessionInfo {
    SessionInfo {
        id: "session_20251115_101112".to_string(),
        started_at: "2025-11-15 10:11:12".to_string(),
        ended_at: ended.map(String::from),
        markets_tracked: Some(7),
        opportunities_detected: None,
    }
}

fn mean() -> Mean {
    Mean { sum: 0, count: 0 }
}

fn estimates() -> Estimates {
    Estimates { avg_fill_probability_bits: None, expected_profit_bits: None }
}

fn stats(id: &str) -> StrategyStats {
    StrategyStats {
        strategy_id: id.to_string(),
        total_opportunities: 12,
        confirmed: 5,
        slipped: 7,
        avg_profit: mean(),
        avg_adjusted_profit: mean(),
        avg_duration_ns: mean(),
        avg_ticks_valid: mean(),
        avg_slippage: mean(),
        estimates: estimates(),
    }
}

fn line(id: &str) -> StrategyLine {
    StrategyLine {
        stats: stats(id),
        avg_profit: "4.5".to_string(),
        avg_adjusted_profit: "-1.0".to_string(),
        expected: "12.3".to_string(),
    }
}

fn summary() -> SummaryTexts {
    SummaryTexts {
        confirmed_percent: "41.7".to_string(),
        slipped_percent: "58.3".to_string(),
        avg_profit: "4.50".to_string(),
        avg_adjusted_profit: "-1.00".to_string(),
        avg_fill_percent: "33.3".to_string(),
        avg_duration_ms: "1.5".to_string(),
        theoretical_cents: "54".to_string(),
        theoretical_dollars: "0.54".to_string(),
        expected_cents: "12".to_string(),
        expected_dollars: "0.12".to_string(),
    }
}

fn slippage() -> SlippageAnalysis {
    SlippageAnalysis {
        avg_slippage: mean(),
        max_slippage: Some(9),
        min_slippage: None,
        positive_slippage_count: 1,
        zero_or_negative_count: 0,
        avg_ticks_before_slip: mean(),
    }
}

fn rule(c: &str, n: usize) -> String {
    c.repeat(n)
}

#[test]
fn frames_have_their_width() {
    assert_eq!(banner("T", 4), "\n====\nT\n====\n\n");
    assert_eq!(closing(3), "===\n\n");
    assert_eq!(spaced_closing(3), "\n===\n\n");
}

#[test]
fn sessions_are_listed_with_their_times() {
    assert_eq!(
        session_list_opening(),
        format!(
            "\n{0}\nBACKTEST SESSIONS\n{0}\n\n{1:<30} {2:>12} {3:>10} {4:>10} {5:>10}\n{6}\n",
            rule("=", 80), "Session ID", "Started", "Duration", "Markets", "Opps", rule("-", 80)
        )
    );
    let done = info(Some("2025-11-15 11:00:59"));
    assert!(can_show_moments(&done));
    assert_eq!(
        session_row(&done),
        format!(
            "{:<30} {:>12} {:>10} {:>10} {:>10}\n",
            "session_20251115_101112", "2025-11-15", "10:11:12 - 11:00:59", "7", "-"
        )
    );
    assert_eq!(
        session_row(&info(None)),
        format!(
            "{:<30} {:>12} {:>10} {:>10} {:>10}\n",
            "session_20251115_101112", "2025-11-15", "running...", "7", "-"
        )
    );
}

#[test]
fn the_list_has_one_line_for_each_session_the_latest_first() {
    let mut sessions: Vec<SessionInfo> = vec![];
    for i in 0..21 {
        let day = (i * 8) % 21 + 1;
        let mut session = info(None);
        session.id = format!("s{:02}", day);
        session.started_at = format!("2025-11-{:02} 10:11:12", day);
        sessions.push(session);
    }
    let mut expected = String::new();
    for day in (1..22).rev() {
        expected.push_str(&format!(
            "{:<30} {:>12} {:>10} {:>10} {:>10}\n",
            format!("s{:02}", day),
            format!("2025-11-{:02}", day),
            "running...",
            "7",
            "-"
        ));
    }
    expected.push('\n');
    assert_eq!(session_list(&sessions), expected);
    assert_eq!(session_list(&vec![]), "\n");
}

#[test]
fn moments_that_cannot_be_cut_are_told_beforehand() {
    let mut short = info(None);
    short.started_at = "2025-11".to_string();
    assert!(!can_show_moments(&short));
    let mut ended = info(Some("soon"));
    assert!(!can_show_moments(&ended));
    ended.ended_at = None;
    assert!(can_show_moments(&ended));
    // The tenth byte lies within a character.
    short.started_at = "202511-15é 10:11:12".to_string();
    assert!(!can_show_moments(&short));
}

#[test]
fn the_report_on_a_session_is_laid_out() {
    assert_eq!(
        session_opening("session_x"),
        format!("\n{0}\nBACKTEST REPORT: session_x\n{0}\n\n", rule("=", 80))
    );
    assert_eq!(
        session_overview(&info(None)),
        format!(
            "Session Info:\n  Started:      2025-11-15 10:11:12\n  Ended:        running...\n  Markets:      7\n  Opportunities: -\n\n{0}\nSUMMARY STATISTICS\n{0}\n",
            rule("-", 40)
        )
    );
    assert_eq!(
        session_totals(12, 5, 7, &summary()),
        format!(
            "Total Opportunities:    12\nConfirmed:              5 (41.7%)\nSlipped:                7 (58.3%)\nAvg Detected Profit:    4.50¢\nAvg Adjusted Profit:    -1.00¢\nAvg Fill Probability:   33.3%\nTotal Theoretical:      54¢ ($0.54)\nTotal Expected:         12¢ ($0.12)\n\n{0}\nSTRATEGY BREAKDOWN\n{0}\n{1:<22} {2:>5} {3:>5} {4:>5} {5:>7} {6:>7} {7:>8}\n{8}\n",
            rule("-", 40), "Strategy", "Tot", "Conf", "Slip", "AvgP", "AdjP", "ExpProf", rule("-", 70)
        )
    );
    assert_eq!(
        session_strategies(&vec![line("a-strategy-with-a-very-long-name"), line("b")]),
        format!(
            "{:<22} {:>5} {:>5} {:>5} {:>6}¢ {:>6}¢ {:>7}¢\n{:<22} {:>5} {:>5} {:>5} {:>6}¢ {:>6}¢ {:>7}¢\n\n{r}\nSLIPPAGE ANALYSIS\n{r}\n",
            "a-strategy-with-a-very", 12, 5, 7, "4.5", "-1.0", "12.3",
            "b", 12, 5, 7, "4.5", "-1.0", "12.3",
            r = rule("-", 40)
        )
    );
    assert_eq!(
        session_slippage(7, &slippage(), "3.25", "1.5"),
        format!(
            "Slipped Opportunities:  7\nAvg Slippage:           3.25¢\nMax Slippage:           9¢\nMin Slippage:           0¢\nAvg Ticks Before Slip:  1.5\n\n{0}\nARB TYPE BREAKDOWN\n{0}\n{1:<25} {2:>6} {3:>8} {4:>8} {5:>10}\n{6}\n",
            rule("-", 40), "Arb Type", "Count", "AvgProf", "FillPr", "Expected", rule("-", 60)
        )
    );
    let kinds = vec![ArbTypeLine {
        stats: ArbTypeStats {
            arb_type: "PolyYesKalshiNo".to_string(),
            total_opportunities: 12,
            avg_profit: mean(),
            estimates: estimates(),
        },
        avg_profit: "4.5".to_string(),
        fill_percent: "33.3".to_string(),
        expected: "12.3".to_string(),
    }];
    assert_eq!(
        session_arb_types(&kinds),
        format!(
            "{:<25} {:>6} {:>7}¢ {:>7}% {:>9}¢\n\n{r}\nTOP 10 OPPORTUNITIES (by expected profit)\n{r}\n",
            "PolyYesKalshiNo", 12, "4.5", "33.3", "12.3",
            r = rule("-", 40)
        )
    );
    let best = vec![TopLine {
        opp: TopOpportunity {
            market_description: "x".repeat(60),
            strategy_id: "a".to_string(),
            arb_type: "PolyOnly".to_string(),
            detected_profit: 5,
            adjusted_profit: -2,
            state: "slipped".to_string(),
            ticks_valid: 3,
        },
        fill_percent: "40".to_string(),
        expected: "-0.8".to_string(),
    }];
    assert_eq!(
        session_best(&best),
        format!(
            "  {}...\n    Strategy: a | Type: PolyOnly | State: slipped (3 ticks)\n    Detected: 5¢ | Adjusted: -2¢ | Fill: 40% | Expected: -0.8¢\n\n{}\n\n",
            "x".repeat(50),
            rule("=", 80)
        )
    );
    assert_eq!(session_best(&vec![]), format!("{}\n\n", rule("=", 80)));
}

#[test]
fn strategies_are_compared() {
    assert_eq!(
        comparison_opening(),
        format!(
            "\n{0}\nSTRATEGY COMPARISON (ALL SESSIONS)\n{0}\n\n{1:<22} {2:>6} {3:>5}% {4:>5}% {5:>6} {6:>6} {7:>6}% {8:>8} {9:>6}\n{10}\n",
            rule("=", 80), "Strategy", "Total", "Conf", "Slip", "AvgDet", "AvgAdj", "Fill", "Expected", "Ticks", rule("-", 85)
        )
    );
    let lines = vec![ComparisonLine {
        stats: stats("a"),
        shown: ComparisonTexts {
            confirmed_percent: "41.7".to_string(),
            slipped_percent: "58.3".to_string(),
            avg_profit: "4.5".to_string(),
            avg_adjusted_profit: "-1.0".to_string(),
            fill_percent: "33.3".to_string(),
            expected: "12".to_string(),
            avg_ticks: "2.0".to_string(),
        },
    }];
    assert_eq!(
        compared_strategies(&lines),
        format!(
            "{:<22} {:>6} {:>5} {:>5} {:>5}¢ {:>5}¢ {:>5} {:>7}¢ {:>6}\n\n{r}\nRECOMMENDATIONS\n{r}\n",
            "a", 12, "41.7", "58.3", "4.5", "-1.0", "33.3", "12", "2.0",
            r = rule("-", 40)
        )
    );
    assert_eq!(best_profit_line("a", "12"), "Best Expected Profit:   a (12¢)\n");
    let rate = Some(Recommended { strategy_id: "a".to_string(), value: "91.7".to_string() });
    assert_eq!(
        recommendations(&rate, &None),
        format!(
            "Best Confirmation Rate: a (91.7%)\nLowest Avg Slippage:    N/A (0.0¢)\n\n{}\n\n",
            rule("=", 80)
        )
    );
    let slip = Some(Recommended { strategy_id: "b".to_string(), value: "-0.5".to_string() });
    assert_eq!(
        recommendations(&None, &slip),
        format!(
            "Best Confirmation Rate: N/A (0.0%)\nLowest Avg Slippage:    b (-0.5¢)\n\n{}\n\n",
            rule("=", 80)
        )
    );
}

#[test]
fn strategies_are_listed_by_identifier() {
    let strategies = vec![
        StrategyRecord {
            id: "b".to_string(),
            name: "Second".to_string(),
            description: None,
            params_json: "{}".to_string(),
            enabled: false,
        },
        StrategyRecord {
            id: "a".to_string(),
            name: "First".to_string(),
            description: Some("The first".to_string()),
            params_json: "{\"min\":2}".to_string(),
            enabled: true,
        },
    ];
    assert_eq!(
        strategy_list(&strategies),
        format!(
            "ID: a [ENABLED]\nName: First\nDescription: The first\nParameters: {{\"min\":2}}\n\nID: b [DISABLED]\nName: Second\nDescription: \nParameters: {{}}\n\n{}\n\n",
            rule("=", 80)
        )
    );
}

#[test]
fn the_short_report_is_laid_out() {
    assert_eq!(
        short_opening("session_x"),
        format!("\n{0}\nBACKTEST REPORT: session_x\n{0}\n\n", rule("=", 60))
    );
    assert_eq!(
        short_totals(12, 5, 7, &summary()),
        format!(
            "SESSION SUMMARY\n{0}\nTotal Opportunities:     12\nConfirmed:               5 (41.7%)\nSlipped:                 7 (58.3%)\nAvg Profit (detected):   4.50¢\nAvg Profit (adjusted):   -1.00¢\nAvg Fill Probability:    33.3%\nAvg Duration:            1.5ms\nTotal Theoretical:       54¢\nTotal Expected:          12¢\n\nSTRATEGY BREAKDOWN\n{0}\n",
            rule("-", 40)
        )
    );
    assert_eq!(
        short_strategies(&vec![line("a-strategy-with-a-very-long-name")]),
        format!(
            "{:<20} {:>6} {:>6} {:>6} {:>8} {:>8}\n{:<20} {:>6} {:>6} {:>6} {:>7}¢ {:>7}¢\n",
            "Strategy", "Total", "Conf", "Slip", "AvgProf", "ExpProf",
            "a-strategy-with-a-ve", 12, 5, 7, "4.5", "12.3"
        )
    );
    assert_eq!(
        short_slippage(&slippage(), "3.25", "1.5"),
        format!(
            "\nSLIPPAGE ANALYSIS\n{}\nAvg Slippage:            3.25¢\nMax Slippage:            9¢\nMin Slippage:            0¢\nAvg Ticks Before Slip:   1.5\n",
            rule("-", 40)
        )
    );
}
