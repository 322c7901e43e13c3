use backtest::cli::{collector_help, report_help, CollectorCommand, ReportCommand};
use backtest::collector::split_commas;
use backtest::export::{
    csv_file_name, csv_head, csv_line, csv_text, exported_line, replace_commas, ExportRow,
};
use backtest::report::{can_show_moments, session_row};
use backtest::sessions::{
    latest_session, listed_sessions, recent_sessions, session_id_at, session_id_from_stamp,
    SessionInfo,
};
use backtest::text::{
    can_slice, chain, cut, join, pad_left, pad_right, rule, same_text, signed_text, slice,
    unsigned_text,
};

fn row(detected_at_ns: i64, description: &str) -> ExportRow {
    ExportRow {
        strategy_id: "a".to_string(),
        market_id: 3,
        market_description: description.to_string(),
        arb_type: "PolyOnly".to_string(),
        detected_at_ns,
        detected_cost: 95,
        detected_profit: -5,
        detected_yes_price: 45,
        detected_no_price: 50,
        detected_yes_size: 1000,
        detected_no_size: 900,
        state: "slipped".to_string(),
        ticks_valid: 2,
        duration_ns: Some(-1),
        worst_cost_seen: Some(97),
        best_cost_seen: None,
        final_cost: None,
        estimated_fill_prob: "0.4000".to_string(),
        estimated_slippage: Some(7),
        adjusted_profit: None,
    }
}

fn args(words: &[&str]) -> Vec<String> {
    words.iter().map(|w| w.to_string()).collect()
}

fn session(id: &str, started_at: &str) -> SessionInfo {
    SessionInfo {
        id: id.to_string(),
        started_at: started_at.to_string(),
        ended_at: None,
        markets_tracked: None,
        opportunities_detected: None,
    }
}

#[test]
fn a_line_holds_the_values_of_an_opportunity() {
    assert_eq!(
        csv_line(&row(12, "Arsenal, Chelsea, 1,2")),
        "a,3,Arsenal; Chelsea; 1;2,PolyOnly,12,95,-5,45,50,1000,900,slipped,2,-1,97,0,0,0.4000,7,0"
    );
}

#[test]
fn a_line_reads_back_whatever_the_description_holds() {
    let line = csv_line(&row(12, ",,x,"));
    let values = split_commas(&line);
    assert_eq!(values.len(), split_commas(&csv_head()).len());
    assert_eq!(values.len(), 20);
    assert_eq!(values[2], ";;x;");
    assert_eq!(values[19], "0");
    assert!(!replace_commas(",,x,").contains(','));
}

#[test]
fn an_export_is_ordered_by_detection() {
    let text = csv_text(&vec![row(30, "c"), row(-1, "a"), row(2, "b")]);
    let lines: Vec<&str> = text.split('\n').collect();
    assert_eq!(lines.len(), 5);
    assert_eq!(lines[0], "strategy_id,market_id,market_description,arb_type,detected_at_ns,detected_cost,detected_profit,detected_yes_price,detected_no_price,detected_yes_size,detected_no_size,state,ticks_valid,duration_ns,worst_cost_seen,best_cost_seen,final_cost,estimated_fill_prob,estimated_slippage,adjusted_profit");
    assert!(lines[1].starts_with("a,3,a,"));
    assert!(lines[2].starts_with("a,3,b,"));
    assert!(lines[3].starts_with("a,3,c,"));
    assert_eq!(lines[4], "");
    assert_eq!(csv_text(&vec![]), format!("{}\n", lines[0]));
}

#[test]
fn an_export_names_its_file() {
    assert_eq!(csv_file_name("session_1"), "session_1.csv");
    assert_eq!(exported_line("session_1", "session_1.csv"), "Exported session_1 to session_1.csv\n");
}

#[test]
fn the_report_program_understands_its_arguments() {
    assert!(matches!(ReportCommand::parse(&args(&[])), ReportCommand::ShowLatest));
    assert!(matches!(ReportCommand::parse(&args(&["p"])), ReportCommand::ShowLatest));
    for word in ["--list", "-l"] {
        assert!(matches!(ReportCommand::parse(&args(&["p", word])), ReportCommand::List));
    }
    for word in ["--compare", "-c"] {
        assert!(matches!(ReportCommand::parse(&args(&["p", word])), ReportCommand::Compare));
    }
    for word in ["--strategies", "-s"] {
        assert!(matches!(ReportCommand::parse(&args(&["p", word])), ReportCommand::Strategies));
    }
    for word in ["--help", "-h"] {
        assert!(matches!(ReportCommand::parse(&args(&["p", word])), ReportCommand::Help));
    }
    for word in ["--export", "-e"] {
        assert!(matches!(ReportCommand::parse(&args(&["p", word])), ReportCommand::ExportLatest));
        match ReportCommand::parse(&args(&["p", word, "s1", "s2"])) {
            ReportCommand::Export { session_id } => assert_eq!(session_id, "s1"),
            other => panic!("{:?}", other),
        }
    }
    match ReportCommand::parse(&args(&["p", "session_x", "--list"])) {
        ReportCommand::Show { session_id } => assert_eq!(session_id, "session_x"),
        other => panic!("{:?}", other),
    }
}

#[test]
fn the_collector_understands_its_arguments() {
    assert_eq!(CollectorCommand::parse(&args(&[])), CollectorCommand::Collect);
    assert_eq!(CollectorCommand::parse(&args(&["p"])), CollectorCommand::Collect);
    assert_eq!(CollectorCommand::parse(&args(&["p", "--analyze"])), CollectorCommand::Analyze);
    assert_eq!(CollectorCommand::parse(&args(&["p", "--help"])), CollectorCommand::Help);
    assert_eq!(CollectorCommand::parse(&args(&["p", "-h"])), CollectorCommand::Collect);
    assert_eq!(CollectorCommand::parse(&args(&["p", "x", "--help"])), CollectorCommand::Collect);
}

#[test]
fn help_names_every_option() {
    let help = report_help();
    assert!(help.starts_with("\nBacktest Report CLI\n\nUSAGE:\n    backtest-report [OPTIONS] [SESSION_ID]\n"));
    for option in ["-l, --list", "-c, --compare", "-s, --strategies", "-e, --export", "-h, --help"] {
        assert!(help.contains(option));
    }
    assert!(help.ends_with("# Export latest session to CSV\n\n"));
    assert_eq!(
        collector_help(),
        "Price Collector - Periodic snapshot tool\n\nUsage:\n  price-collector           Collect price snapshot\n  price-collector --analyze Analyze collected data\n\nEnvironment:\n  KALSHI_API_KEY_ID    Kalshi API key (optional for public data)\n"
    );
}

#[test]
fn a_session_is_named_after_its_start() {
    assert_eq!(session_id_at(1_763_201_472).unwrap(), "session_20251115_101112");
    assert_eq!(session_id_at(0).unwrap(), "session_19700101_000000");
    assert_eq!(session_id_at(253_402_300_799).unwrap(), "session_99991231_235959");
    assert_eq!(session_id_at(i64::MAX), None);
    assert_eq!(session_id_from_stamp("20250101_000000"), "session_20250101_000000");
}

#[test]
fn the_latest_sessions_come_first() {
    let sessions = vec![
        session("b", "2025-11-14 00:00:00"),
        session("c", "2025-11-15 09:59:59"),
        session("a", "2024-12-31 23:59:59"),
    ];
    let ids: Vec<String> = recent_sessions(&sessions, 2).into_iter().map(|s| s.id).collect();
    assert_eq!(ids, vec!["c", "b"]);
    assert_eq!(recent_sessions(&sessions, 20).len(), 3);
    assert!(recent_sessions(&sessions, 0).is_empty());
    assert_eq!(latest_session(&sessions), Some("c".to_string()));
    assert_eq!(latest_session(&vec![]), None);
}

#[test]
fn all_sessions_are_listed_the_latest_first() {
    let mut sessions: Vec<SessionInfo> = vec![];
    for i in 0..21 {
        let day = (i * 8) % 21 + 1;
        sessions.push(session(&format!("s{:02}", day), &format!("2025-11-{:02} 10:11:12", day)));
    }
    sessions[4].ended_at = Some("2025-11-30 11:00:59".to_string());
    let listed = listed_sessions(&sessions);
    assert_eq!(listed.len(), 21);
    for (place, info) in listed.iter().enumerate() {
        assert_eq!(info.id, format!("s{:02}", 21 - place));
        assert!(can_show_moments(info));
        let line = session_row(info);
        assert_eq!(line.matches('\n').count(), 1);
        assert!(line.contains(&info.started_at[0..10]));
        assert_eq!(line.contains("running..."), info.ended_at.is_none());
    }
    assert!(listed_sessions(&vec![]).is_empty());
}

#[test]
fn sessions_of_one_moment_keep_their_order() {
    let sessions = vec![session("a", "2025"), session("b", "2026"), session("c", "2025")];
    let ids: Vec<String> = listed_sessions(&sessions).into_iter().map(|s| s.id).collect();
    assert_eq!(ids, vec!["b", "a", "c"]);
}

#[test]
fn numbers_are_written_in_decimal() {
    for n in [0u64, 7, 10, 99, 100, 4294967296, u64::MAX] {
        assert_eq!(unsigned_text(n), n.to_string());
    }
    for n in [0i64, -1, 42, -100, i64::MAX, i64::MIN] {
        assert_eq!(signed_text(n), n.to_string());
    }
}

#[test]
fn texts_are_padded_and_cut_by_characters() {
    assert_eq!(pad_right("é", 3), "é  ");
    assert_eq!(pad_left("é", 3), "  é");
    assert_eq!(pad_right("long", 3), "long");
    assert_eq!(pad_left("long", 3), "long");
    assert_eq!(cut("énorme", 2), "én");
    assert_eq!(cut("a", 2), "a");
    assert_eq!(rule("=", 3), "===");
    assert_eq!(rule("=", 0), "");
}

#[test]
fn texts_are_joined_and_compared() {
    let parts = vec!["a".to_string(), "".to_string(), "b".to_string()];
    assert_eq!(chain(&parts), "ab");
    assert_eq!(join(&parts, ", "), "a, , b");
    assert_eq!(join(&vec![], ","), "");
    assert!(same_text("abc", "abc"));
    assert!(!same_text("abc", "abd"));
    assert!(!same_text("abc", "ab"));
}

#[test]
fn texts_are_sliced_by_bytes() {
    assert!(can_slice("2025-11-15 10:11:12", 11, 19));
    assert_eq!(slice("2025-11-15 10:11:12", 11, 19), "10:11:12");
    assert!(!can_slice("2025", 0, 10));
    assert!(!can_slice("é", 0, 1));
    assert!(can_slice("é", 0, 2));
    assert_eq!(slice("éa", 0, 2), "é");
    assert!(can_slice("abc", 3, 3));
    assert_eq!(slice("abc", 3, 3), "");
}
