use backtest::collector::{
    best_quotes, cheapest, count_distinct, find_near_arbs, gamma_url, kalshi_series, kalshi_url,
    outcome_prices, poly_quotes, price_distribution, split_commas, trim, CostBucket, GammaEvent,
    GammaMarket, KalshiQuote, Margin, QuoteError, Wanted,
};
use backtest::snapshot_report::{
    analysis_best, analysis_distribution, analysis_opening, analysis_overview, collected_line,
    collecting_line, fetch_failed_line, near_arb_list, sign_text, venue_line,
};

fn quote(timestamp: i64, ticker: &str, yes_ask: Option<i64>, no_ask: Option<i64>) -> KalshiQuote {
    KalshiQuote { timestamp, ticker: ticker.to_string(), yes_ask, no_ask }
}

fn market(prices: Option<&str>) -> GammaMarket {
    GammaMarket { outcome_prices: prices.map(String::from) }
}

#[test]
fn urls_and_series() {
    assert_eq!(kalshi_series(), vec!["KXEPLGAME", "KXNBAGAME", "KXNFLGAME"]);
    assert_eq!(
        kalshi_url("KXNBAGAME"),
        "https://api.elections.kalshi.com/trade-api/v2/markets?series_ticker=KXNBAGAME&limit=100"
    );
    assert_eq!(
        gamma_url(),
        "https://gamma-api.polymarket.com/events?active=true&closed=false&limit=100&tag=sports"
    );
}

#[test]
fn white_space_is_what_unicode_says() {
    for n in 0..=0x10FFFFu32 {
        if let Some(c) = char::from_u32(n) {
            assert_eq!(Margin::Whitespace.strips(c), c.is_whitespace(), "{:x}", n);
        }
    }
}

#[test]
fn margins_are_stripped_from_both_ends() {
    assert_eq!(trim("[[a]b]", Margin::Brackets), "a]b");
    assert_eq!(trim("][", Margin::Brackets), "");
    assert_eq!(trim(" \t x y\u{2003}\n", Margin::Whitespace), "x y");
    assert_eq!(trim("\"\"0.5\"", Margin::Quotes), "0.5");
    assert_eq!(trim("", Margin::Quotes), "");
    for s in [" a ", "\u{a0}\u{3000}b", "", "  "] {
        assert_eq!(trim(s, Margin::Whitespace), s.trim());
    }
}

#[test]
fn parts_stand_between_commas() {
    assert_eq!(split_commas("a,b"), vec!["a", "b"]);
    assert_eq!(split_commas(""), vec![""]);
    assert_eq!(split_commas(",é,"), vec!["", "é", ""]);
}

#[test]
fn price_lists_read_back() {
    assert_eq!(outcome_prices("[\"0.45\",\"0.55\"]"), vec!["0.45", "0.55"]);
    assert_eq!(outcome_prices("[ \"0.45\" , \"0.55\" ]"), vec!["0.45", "0.55"]);
    assert_eq!(outcome_prices("0.1,0.9,0"), vec!["0.1", "0.9", "0"]);
    assert_eq!(outcome_prices("[]"), vec![""]);
    assert_eq!(outcome_prices("[\"1\"]"), vec!["1"]);
}

#[test]
fn quotes_come_from_markets_with_two_prices() {
    let events = vec![
        GammaEvent {
            slug: Some("s1".to_string()),
            title: Some("t1".to_string()),
            markets: Some(vec![
                market(Some("[\"0.4\",\"0.6\"]")),
                market(None),
                market(Some("[\"0.4\"]")),
                market(Some("[\"a\",\"b\",\"c\"]")),
            ]),
        },
        GammaEvent { slug: Some("s2".to_string()), title: None, markets: None },
        GammaEvent { slug: None, title: None, markets: Some(vec![market(Some("1,0"))]) },
    ];
    let quotes = poly_quotes(&events);
    let shown: Vec<(&str, &str, &str, &str)> = quotes
        .iter()
        .map(|q| (q.slug.as_str(), q.title.as_str(), q.yes_price.as_str(), q.no_price.as_str()))
        .collect();
    assert_eq!(shown, vec![("s1", "t1", "0.4", "0.6"), ("s1", "t1", "a", "b"), ("", "", "1", "0")]);
}

#[test]
fn near_arbs_are_below_the_limit_and_of_the_moment() {
    let quotes = vec![
        quote(9, "close", Some(50), Some(54)),
        quote(9, "limit", Some(50), Some(55)),
        quote(9, "arb", Some(40), Some(57)),
        quote(8, "old", Some(1), Some(1)),
        quote(9, "half", Some(1), None),
        quote(9, "none", None, None),
        quote(9, "tie", Some(4), Some(93)),
    ];
    let arbs = find_near_arbs(&quotes, 9).unwrap();
    let shown: Vec<(&str, i64, i64)> =
        arbs.iter().map(|a| (a.ticker.as_str(), a.cost, a.profit)).collect();
    assert_eq!(shown, vec![("arb", 97, 1), ("tie", 97, 1), ("close", 104, -6)]);
    assert!(find_near_arbs(&quotes, 7).unwrap().is_empty());
}

#[test]
fn no_more_than_ten_near_arbs_are_given() {
    let quotes: Vec<KalshiQuote> =
        (0..30).map(|i| quote(1, "t", Some(60 - i), Some(10))).collect();
    let arbs = find_near_arbs(&quotes, 1).unwrap();
    assert_eq!(arbs.len(), 10);
    assert_eq!(arbs[0].cost, 41);
    assert_eq!(arbs[9].cost, 50);
}

#[test]
fn a_cost_that_does_not_fit_is_an_error() {
    let quotes = vec![quote(1, "t", Some(i64::MIN), Some(-1))];
    assert_eq!(find_near_arbs(&quotes, 1).unwrap_err(), QuoteError::CostOutOfRange);
    assert_eq!(best_quotes(&quotes).unwrap_err(), QuoteError::CostOutOfRange);
    let large = vec![quote(1, "t", Some(i64::MAX), Some(1))];
    assert!(find_near_arbs(&large, 1).unwrap().is_empty());
    assert_eq!(best_quotes(&large).unwrap_err(), QuoteError::CostOutOfRange);
}

#[test]
fn the_best_quotes_are_the_cheapest_of_all_moments() {
    let mut quotes: Vec<KalshiQuote> =
        (0..25).map(|i| quote(i, "t", Some(100 + i), Some(3))).collect();
    quotes.push(quote(77, "best", Some(40), Some(50)));
    quotes.push(quote(78, "half", None, Some(0)));
    let best = best_quotes(&quotes).unwrap();
    assert_eq!(best.len(), 20);
    assert_eq!(
        (best[0].timestamp, best[0].ticker.as_str(), best[0].yes_ask, best[0].no_ask, best[0].cost),
        (77, "best", 40, 50, 90)
    );
    assert_eq!(best[19].cost, 121);
    assert_eq!(cheapest(&quotes, Wanted { at: Some(3), below: None }, 5), vec![3]);
}

#[test]
fn buckets_partition_and_the_fullest_comes_first() {
    let quotes = vec![
        quote(1, "a", Some(50), Some(49)),
        quote(1, "b", Some(50), Some(50)),
        quote(1, "c", Some(50), Some(51)),
        quote(1, "d", Some(50), Some(52)),
        quote(1, "e", Some(50), Some(55)),
        quote(1, "f", Some(60), Some(90)),
        quote(1, "g", Some(60), Some(91)),
        quote(1, "h", None, Some(91)),
    ];
    assert_eq!(
        price_distribution(&quotes),
        vec![
            (CostBucket::Efficient, 3),
            (CostBucket::NearArb, 2),
            (CostBucket::Arb, 1),
            (CostBucket::Close, 1),
        ]
    );
    assert_eq!(price_distribution(&vec![quote(1, "a", Some(1), Some(1))]), vec![(CostBucket::Arb, 1)]);
    assert!(price_distribution(&vec![]).is_empty());
}

#[test]
fn moments_are_counted_once() {
    assert_eq!(count_distinct(&vec![3, 1, 3, 3, -1]), 3);
    assert_eq!(count_distinct(&vec![]), 0);
}

#[test]
fn numbers_carry_their_sign() {
    assert_eq!(sign_text(5), "+5");
    assert_eq!(sign_text(0), "+0");
    assert_eq!(sign_text(-7), "-7");
    assert_eq!(sign_text(i64::MIN), format!("{:+}", i64::MIN));
}

#[test]
fn the_collector_tells_what_it_does() {
    assert_eq!(collecting_line(), "📸 Collecting price snapshot...\n");
    assert_eq!(venue_line("Kalshi", 12), "  ✅ Kalshi: 12 markets\n");
    assert_eq!(fetch_failed_line("KXNBAGAME", "timeout"), "  ⚠️ Failed to fetch KXNBAGAME: timeout\n");
    assert_eq!(collected_line(1700000000), "\n✅ Snapshot complete at 1700000000\n");
    assert_eq!(near_arb_list(&vec![]), "");
    let arbs = find_near_arbs(&vec![quote(1, "A", Some(40), Some(57)), quote(1, "B", Some(50), Some(54))], 1).unwrap();
    assert_eq!(
        near_arb_list(&arbs),
        "\n📊 Near-arbitrage opportunities found:\n  A | cost=97¢ | potential=+1¢\n  B | cost=104¢ | potential=-6¢\n"
    );
}

#[test]
fn the_analysis_is_laid_out() {
    assert_eq!(
        analysis_opening(),
        format!("\n{0}\nPRICE SNAPSHOT ANALYSIS\n{0}\n\n", "=".repeat(60))
    );
    assert_eq!(
        analysis_overview(3, 4),
        format!(
            "Snapshots collected:\n  Kalshi: 3 timestamps\n  Polymarket: 4 timestamps\n\n{0}\nBEST HISTORICAL OPPORTUNITIES\n{0}\n",
            "-".repeat(40)
        )
    );
    let best = best_quotes(&vec![quote(1700000000, "KXNBAGAME-25NOV15-LALBOS-LAL-AND-MORE", Some(40), Some(57))]).unwrap();
    assert_eq!(
        analysis_best(&best),
        format!(
            "{:<12} {:<30} {:>6} {:>6} {:>6}\n{:<12} {:<30} {:>5}¢ {:>5}¢ {:>5}¢\n\n{r}\nPRICE DISTRIBUTION (Kalshi)\n{r}\n",
            "Timestamp", "Ticker", "YES", "NO", "Cost",
            1700000000, "KXNBAGAME-25NOV15-LALBOS-LAL-A", 40, 57, 97,
            r = "-".repeat(40)
        )
    );
    assert_eq!(
        analysis_distribution(&vec![(CostBucket::Efficient, 12), (CostBucket::NearArb, 3)]),
        format!(
            "  {:<20} {:>6}\n  {:<20} {:>6}\n\n{}\n\n",
            "Efficient (>105)", 12, "Near-arb (100-102)", 3, "=".repeat(60)
        )
    );
}
