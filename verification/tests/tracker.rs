use backtest::opportunity::{FillStep, OpportunityState};
use backtest::service::{Message, Order, Worker};
use backtest::signal::{ArbCosts, ArbType, MarketSnapshot, StrategySignal};
use backtest::tracker::{Action, BacktestTracker, Event, SNAPSHOT_INTERVAL_NS};

fn snapshot(market_id: u16) -> MarketSnapshot {
    MarketSnapshot {
        market_id,
        kalshi_yes: 45,
        kalshi_no: 56,
        kalshi_yes_size: 1000,
        kalshi_no_size: 1000,
        poly_yes: 44,
        poly_no: 57,
        poly_yes_size: 1000,
        poly_no_size: 1000,
        timestamp_ns: 7,
    }
}

fn signal(strategy_id: &str, market_id: u16, cost_cents: u16) -> StrategySignal {
    StrategySignal {
        strategy_id: strategy_id.to_string(),
        market_id,
        arb_type: ArbType::PolyYesKalshiNo,
        cost_cents,
        profit_cents: 5,
        yes_price: 44,
        no_price: 56,
        yes_size: 1000,
        no_size: 1000,
        confidence_bits: 0.5f64.to_bits(),
        timestamp_ns: 0,
    }
}

fn costs(cost: u16) -> ArbCosts {
    ArbCosts {
        poly_yes_kalshi_no: cost,
        kalshi_yes_poly_no: 1,
        poly_only: 2,
        kalshi_only: 3,
    }
}

/// Runs one update in which every action succeeds, and writes down what was done.
fn run_update(
    tracker: &mut BacktestTracker,
    market_id: u16,
    now_ns: u64,
    signals: Vec<StrategySignal>,
    cost: u16,
) -> (Vec<String>, Vec<StrategySignal>) {
    let mut log: Vec<String> = vec![];
    let mut signals = Some(signals);
    let (mut run, mut action) = tracker.process_update(&snapshot(market_id), true, "desc", now_ns);
    loop {
        let event = match &action {
            Action::SaveSnapshot { snapshot } => {
                assert_eq!(snapshot.timestamp_ns, now_ns);
                log.push("sample".to_string());
                Event::Stored
            }
            Action::Evaluate { snapshot } => {
                assert_eq!(snapshot.timestamp_ns, now_ns);
                Event::Evaluated { signals: signals.take().unwrap(), costs: costs(cost) }
            }
            Action::Reestimate { fill_prob_bits, step } => {
                log.push(format!("estimate {:?}", step));
                let old = f64::from_bits(*fill_prob_bits);
                let new = match step {
                    FillStep::Grow { .. } => old + 0.01,
                    FillStep::Scale { factor_bits } => old * f64::from_bits(*factor_bits),
                    FillStep::Keep => old,
                };
                Event::Reestimated { fill_prob_bits: new.to_bits() }
            }
            Action::InsertOpportunity { opp } => {
                assert_eq!(opp.id, 0);
                log.push(format!("insert {}", opp.strategy_id));
                Event::Inserted { id: 100 + opp.market_id as i64 }
            }
            Action::UpdateOpportunity { opp } => {
                log.push(format!("store {} {}", opp.strategy_id, opp.state.as_str()));
                Event::Stored
            }
            Action::Finished => break,
            other => panic!("{:?}", other),
        };
        action = tracker.resume(&mut run, event);
    }
    (log, run.into_new_signals())
}

#[test]
fn an_update_reports_the_first_signal_of_what_is_new() {
    let mut tracker = BacktestTracker::new("s");
    run_update(&mut tracker, 1, 10, vec![signal("known", 1, 95)], 95);
    let signals = vec![
        signal("b", 1, 91),
        signal("known", 1, 92),
        signal("a", 1, 93),
        signal("b", 1, 94),
        signal("a", 1, 90),
    ];
    let (_, new) = run_update(&mut tracker, 1, 20, signals, 95);
    let found: Vec<(&str, u16)> =
        new.iter().map(|s| (s.strategy_id.as_str(), s.cost_cents)).collect();
    assert_eq!(found, vec![("b", 91), ("a", 93)]);
    assert_eq!(tracker.total_detected, 3);
    assert_eq!(tracker.total_confirmed, 3);
    assert_eq!(tracker.total_slipped, 0);
    assert_eq!(tracker.snapshot_count, 1);
}

#[test]
fn what_is_gone_slips_at_the_cost_of_its_own_kind() {
    let mut tracker = BacktestTracker::new("s");
    let mut found = vec![];
    for arb_type in [
        ArbType::PolyYesKalshiNo,
        ArbType::KalshiYesPolyNo,
        ArbType::PolyOnly,
        ArbType::KalshiOnly,
    ] {
        found.push(StrategySignal { arb_type, ..signal("a", 1, 95) });
    }
    run_update(&mut tracker, 1, 10, found, 95);
    run_update(&mut tracker, 2, 15, vec![signal("a", 2, 95)], 95);
    run_update(&mut tracker, 1, 20, vec![], 103);
    assert_eq!(tracker.total_slipped, 4);
    let costs: Vec<Option<u16>> = tracker.active().iter().map(|o| o.final_cost).collect();
    assert_eq!(costs, vec![Some(103), Some(1), Some(2), Some(3), None]);
    assert_eq!(tracker.active()[4].state, OpportunityState::Detected);
}

#[test]
fn what_is_seen_again_is_confirmed_and_keeps_what_it_lost() {
    let mut tracker = BacktestTracker::new("s");
    run_update(&mut tracker, 1, 10, vec![signal("a", 1, 95)], 95);
    run_update(&mut tracker, 1, 20, vec![], 103);
    let signals = vec![signal("a", 1, 90), signal("b", 1, 95), signal("a", 1, 99)];
    let (log, new) = run_update(&mut tracker, 1, 30, signals, 95);
    assert_eq!(new.len(), 1);
    assert!(log.iter().all(|line| !line.starts_with("store")));
    let opp = &tracker.active()[0];
    assert_eq!(opp.state, OpportunityState::Confirmed);
    assert_eq!(opp.ticks_valid, 3);
    assert_eq!(opp.last_seen_ns, 30);
    assert_eq!((opp.best_cost_seen, opp.worst_cost_seen), (90, 99));
    assert_eq!(opp.final_cost, Some(103));
    assert_eq!(opp.estimated_slippage, 8);
    assert_eq!(opp.adjusted_profit, -3);
}

#[test]
fn no_opportunity_is_new_twice_in_a_session() {
    let mut tracker = BacktestTracker::new("s");
    let mut new: Vec<(String, u16)> = vec![];
    let rounds: Vec<(u16, Vec<&str>)> = vec![
        (1, vec!["a", "b", "a"]),
        (2, vec!["a"]),
        (1, vec![]),
        (1, vec!["b", "c", "a"]),
        (2, vec!["a", "b"]),
    ];
    for (i, (market_id, strategies)) in rounds.into_iter().enumerate() {
        let signals = strategies.iter().map(|s| signal(s, market_id, 95)).collect();
        let (_, found) = run_update(&mut tracker, market_id, 10 * i as u64, signals, 96);
        new.extend(found.into_iter().map(|s| (s.strategy_id, s.market_id)));
    }
    let expected: Vec<(String, u16)> = vec![("a", 1), ("b", 1), ("a", 2), ("c", 1), ("b", 2)]
        .into_iter()
        .map(|(s, m)| (s.to_string(), m))
        .collect();
    assert_eq!(new, expected);
    assert_eq!(tracker.total_detected, 5);
}

#[test]
fn a_new_tracker_has_seen_nothing() {
    let tracker = BacktestTracker::new("session_1");
    assert_eq!(tracker.session_id(), "session_1");
    assert_eq!(tracker.stats(), (0, 0, 0, 0));
    assert!(tracker.active().is_empty());
}

#[test]
fn an_opportunity_lives_through_detection_confirmation_and_slippage() {
    let mut tracker = BacktestTracker::new("s");
    let (log, new) = run_update(&mut tracker, 4, 10, vec![signal("a", 4, 95)], 95);
    assert_eq!(log, vec!["sample", "insert a"]);
    assert_eq!(new.len(), 1);
    assert_eq!(new[0].strategy_id, "a");
    assert_eq!(tracker.stats(), (1, 0, 0, 1));
    assert_eq!(tracker.active()[0].id, 104);
    assert_eq!(tracker.active()[0].detected_at_ns, 10);
    assert_eq!(tracker.active()[0].last_seen_ns, 10);
    assert_eq!(tracker.active()[0].market_description, "desc");

    let (log, new) = run_update(&mut tracker, 4, 30, vec![signal("a", 4, 97)], 97);
    assert_eq!(log, vec!["estimate Grow { duration_ns: 20 }"]);
    assert!(new.is_empty());
    assert_eq!(tracker.stats(), (1, 1, 0, 1));
    assert_eq!(tracker.active()[0].worst_cost_seen, 97);
    assert_eq!(tracker.active()[0].state, OpportunityState::Confirmed);

    run_update(&mut tracker, 4, 40, vec![signal("a", 4, 96)], 96);
    assert_eq!(tracker.stats(), (1, 1, 0, 1));

    let (log, _) = run_update(&mut tracker, 4, 60, vec![], 103);
    assert_eq!(
        log,
        vec![
            format!("estimate Scale {{ factor_bits: {} }}", 0.5f64.to_bits()),
            "store a slipped".to_string(),
        ]
    );
    assert_eq!(tracker.stats(), (1, 1, 1, 1));
    let gone = &tracker.active()[0];
    assert_eq!(gone.estimated_slippage, 8);
    assert_eq!(gone.adjusted_profit, -3);
    assert_eq!(gone.final_cost, Some(103));
    assert_eq!(gone.duration_ns, 50);

    // What has slipped slips no second time, and is confirmed when it is seen again.
    let (log, _) = run_update(&mut tracker, 4, 70, vec![], 110);
    assert!(log.is_empty());
    let (log, new) = run_update(&mut tracker, 4, 80, vec![signal("a", 4, 95)], 95);
    assert_eq!(log, vec!["estimate Grow { duration_ns: 70 }"]);
    assert!(new.is_empty());
    assert_eq!(tracker.active()[0].state, OpportunityState::Confirmed);
    assert_eq!(tracker.active()[0].ticks_valid, 4);
    assert_eq!(tracker.stats(), (1, 1, 1, 1));
}

#[test]
fn an_update_leaves_other_markets_alone() {
    let mut tracker = BacktestTracker::new("s");
    run_update(&mut tracker, 1, 10, vec![signal("a", 1, 95)], 95);
    run_update(&mut tracker, 2, 20, vec![signal("a", 2, 95), signal("b", 2, 94)], 95);
    assert_eq!(tracker.stats(), (3, 0, 0, 2));
    let (log, _) = run_update(&mut tracker, 2, 30, vec![signal("b", 2, 94)], 99);
    assert_eq!(log.len(), 3);
    let states: Vec<OpportunityState> = tracker.active().iter().map(|o| o.state).collect();
    assert_eq!(
        states,
        vec![OpportunityState::Detected, OpportunityState::Slipped, OpportunityState::Confirmed]
    );
}

#[test]
fn the_same_signal_twice_in_one_update_confirms_at_once() {
    let mut tracker = BacktestTracker::new("s");
    let (_, new) = run_update(&mut tracker, 1, 10, vec![signal("a", 1, 95), signal("a", 1, 95)], 95);
    assert_eq!(new.len(), 1);
    assert_eq!(tracker.stats(), (1, 1, 0, 1));
}

#[test]
fn a_market_is_sampled_when_more_than_a_second_has_passed() {
    let mut tracker = BacktestTracker::new("s");
    run_update(&mut tracker, 1, 5, vec![], 0);
    let (log, _) = run_update(&mut tracker, 1, 5 + SNAPSHOT_INTERVAL_NS, vec![], 0);
    assert!(log.is_empty());
    let (log, _) = run_update(&mut tracker, 1, 6 + SNAPSHOT_INTERVAL_NS, vec![], 0);
    assert_eq!(log, vec!["sample"]);
    let (log, _) = run_update(&mut tracker, 2, 6 + SNAPSHOT_INTERVAL_NS, vec![], 0);
    assert_eq!(log, vec!["sample"]);
    assert_eq!(tracker.stats(), (0, 0, 0, 3));
}

#[test]
fn a_snapshot_without_all_prices_is_not_sampled() {
    let tracker = BacktestTracker::new("s");
    let (_, action) = tracker.process_update(&snapshot(1), false, "d", 5);
    assert!(matches!(action, Action::Evaluate { .. }));
}

#[test]
fn a_failure_ends_the_update_and_keeps_what_was_done() {
    let mut tracker = BacktestTracker::new("s");
    let (mut run, action) = tracker.process_update(&snapshot(1), true, "d", 5);
    assert!(matches!(action, Action::SaveSnapshot { .. }));
    let action = tracker.resume(&mut run, Event::Failed);
    assert!(matches!(action, Action::Aborted));
    assert_eq!(tracker.stats(), (0, 0, 0, 0));

    let (mut run, _) = tracker.process_update(&snapshot(1), true, "d", 5);
    tracker.resume(&mut run, Event::Stored);
    let action = tracker.resume(
        &mut run,
        Event::Evaluated { signals: vec![signal("a", 1, 9), signal("b", 1, 9)], costs: costs(9) },
    );
    assert!(matches!(action, Action::InsertOpportunity { .. }));
    let action = tracker.resume(&mut run, Event::Inserted { id: 1 });
    assert!(matches!(action, Action::InsertOpportunity { .. }));
    let action = tracker.resume(&mut run, Event::Failed);
    assert!(matches!(action, Action::Aborted));
    assert_eq!(tracker.stats(), (1, 0, 0, 1));
    // The run has ended: nothing answers it any more.
    let action = tracker.resume(&mut run, Event::Inserted { id: 2 });
    assert!(matches!(action, Action::Aborted));
    assert_eq!(tracker.active().len(), 1);
}

#[test]
fn a_clock_that_runs_backwards_is_out_of_range() {
    let mut tracker = BacktestTracker::new("s");
    run_update(&mut tracker, 1, 100, vec![], 0);
    let (_, action) = tracker.process_update(&snapshot(1), true, "d", 99);
    assert!(matches!(action, Action::OutOfRange));
    let (_, action) = tracker.process_update(&snapshot(1), true, "d", 100);
    assert!(matches!(action, Action::Evaluate { .. }));
}

#[test]
fn a_slippage_that_does_not_fit_is_out_of_range() {
    let mut tracker = BacktestTracker::new("s");
    run_update(&mut tracker, 1, 10, vec![signal("a", 1, 95)], 95);
    let (mut run, _) = tracker.process_update(&snapshot(1), true, "d", 20);
    let action =
        tracker.resume(&mut run, Event::Evaluated { signals: vec![], costs: costs(32768) });
    assert!(matches!(action, Action::OutOfRange));
    assert_eq!(tracker.active()[0].state, OpportunityState::Detected);
}

#[test]
fn the_end_of_a_session_closes_what_has_not_slipped() {
    let mut tracker = BacktestTracker::new("s");
    run_update(&mut tracker, 1, 10, vec![signal("a", 1, 95), signal("b", 1, 95)], 95);
    run_update(&mut tracker, 1, 20, vec![signal("b", 1, 95)], 99);
    run_update(&mut tracker, 2, 30, vec![signal("c", 2, 95)], 95);
    let (mut run, mut action) = tracker.finalize(50);
    let mut stored: Vec<String> = vec![];
    loop {
        match &action {
            Action::UpdateOpportunity { opp } => {
                stored.push(opp.strategy_id.clone());
                assert_eq!(f64::from_bits(opp.estimated_fill_prob_bits), 0.9);
            }
            Action::EndSession { markets_tracked, opportunities } => {
                assert_eq!((*markets_tracked, *opportunities), (2, 3));
                stored.push("end".to_string());
            }
            Action::Finished => break,
            other => panic!("{:?}", other),
        }
        action = tracker.resume_finalize(&mut run, Event::Stored);
    }
    assert_eq!(stored, vec!["b", "c", "end"]);
    assert_eq!(tracker.active()[0].duration_ns, 10);
    assert_eq!(tracker.active()[0].final_cost, Some(99));
    let states: Vec<OpportunityState> = tracker.active().iter().map(|o| o.state).collect();
    assert_eq!(
        states,
        vec![
            OpportunityState::Slipped,
            OpportunityState::ClosedProfitable,
            OpportunityState::ClosedProfitable,
        ]
    );
    assert_eq!(tracker.active()[1].duration_ns, 40);
    assert_eq!(tracker.stats(), (3, 1, 1, 2));
}

#[test]
fn a_failure_ends_the_end_of_a_session() {
    let mut tracker = BacktestTracker::new("s");
    run_update(&mut tracker, 1, 10, vec![signal("a", 1, 95)], 95);
    let (mut run, _) = tracker.finalize(50);
    assert!(matches!(tracker.resume_finalize(&mut run, Event::Failed), Action::Aborted));
    assert!(matches!(tracker.resume_finalize(&mut run, Event::Stored), Action::Aborted));
}

fn update(market_id: u16) -> Message {
    Message::ProcessUpdate {
        snapshot: snapshot(market_id),
        has_all_prices: true,
        description: "d".to_string(),
    }
}

#[test]
fn a_worker_publishes_when_an_update_is_over() {
    let mut worker = Worker::new("session_x");
    assert_eq!(worker.published(), (0, 0, 0, 0));
    assert!(worker.is_idle());
    assert!(matches!(
        worker.receive(update(1), 5),
        Order::Perform { action: Action::SaveSnapshot { .. } }
    ));
    assert!(!worker.is_idle());
    assert!(matches!(
        worker.answer(Event::Stored),
        Order::Perform { action: Action::Evaluate { .. } }
    ));
    assert!(matches!(
        worker.answer(Event::Evaluated { signals: vec![signal("a", 1, 95)], costs: costs(95) }),
        Order::Perform { action: Action::InsertOpportunity { .. } }
    ));
    assert_eq!(worker.published(), (0, 0, 0, 0));
    assert!(matches!(worker.answer(Event::Inserted { id: 1 }), Order::UpdateDone { failed: false }));
    assert_eq!(worker.published(), (1, 0, 0, 1));
    assert!(worker.is_idle());
    match worker.receive(Message::GetStats, 6) {
        Order::SendStats { stats } => assert_eq!(stats, (1, 0, 0, 1)),
        other => panic!("{:?}", other),
    }
    match worker.receive(Message::GetSessionId, 6) {
        Order::SendSessionId { session_id } => assert_eq!(session_id, "session_x"),
        other => panic!("{:?}", other),
    }
}

#[test]
fn a_failed_update_is_told_and_the_worker_serves_on() {
    let mut worker = Worker::new("s");
    worker.receive(update(1), 5);
    worker.answer(Event::Stored);
    assert!(matches!(worker.answer(Event::Failed), Order::UpdateDone { failed: true }));
    assert_eq!(worker.published(), (0, 0, 0, 1));
    assert!(matches!(worker.receive(update(1), 6), Order::Perform { .. }));
}

#[test]
fn a_busy_worker_refuses_messages_and_an_idle_one_answers() {
    let mut worker = Worker::new("s");
    assert!(matches!(worker.answer(Event::Stored), Order::Refuse));
    worker.receive(update(1), 5);
    assert!(matches!(worker.receive(Message::GetStats, 5), Order::Refuse));
    assert!(matches!(worker.answer(Event::Failed), Order::UpdateDone { failed: true }));
}

#[test]
fn a_worker_stops_after_the_end_of_the_session() {
    let mut worker = Worker::new("s");
    assert!(matches!(
        worker.receive(Message::Finalize, 5),
        Order::Perform { action: Action::EndSession { markets_tracked: 0, opportunities: 0 } }
    ));
    assert!(matches!(worker.answer(Event::Stored), Order::Stop { failed: false }));
    assert!(matches!(worker.receive(update(1), 6), Order::Refuse));
    assert!(matches!(worker.receive(Message::Finalize, 6), Order::Refuse));
    assert!(matches!(worker.answer(Event::Stored), Order::Refuse));
}

#[test]
fn a_worker_stops_though_the_end_of_the_session_fails() {
    let mut worker = Worker::new("s");
    worker.receive(Message::Finalize, 5);
    assert!(matches!(worker.answer(Event::Failed), Order::Stop { failed: true }));
    assert!(matches!(worker.receive(Message::GetStats, 6), Order::Refuse));
}

#[test]
fn a_worker_breaks_where_its_tracker_is_out_of_range() {
    let mut worker = Worker::new("s");
    worker.receive(update(1), 5);
    worker.answer(Event::Stored);
    worker.answer(Event::Evaluated { signals: vec![], costs: costs(0) });
    assert!(matches!(worker.receive(update(1), 4), Order::Break));
    assert!(matches!(worker.receive(update(1), 6), Order::Refuse));
}
