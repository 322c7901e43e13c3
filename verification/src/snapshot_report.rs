//! The texts of the price collector: what it tells while it collects, and its
//! analysis of what it has collected.

use crate::collector::{BestQuote, CostBucket, NearArb};
use crate::layout::{
    banner, banner_parts, columns, left, left_cell, right, right_cell, row_text, section,
    section_parts, spaced_closing, spaced_closing_parts, table_row, Cell, Column,
};
use crate::text::{
    chain, concatenated, cut, decimal, first_chars, owned, signed_decimal, signed_text, texts,
    unsigned_text,
};
use vstd::prelude::*;
use vstd::string::*;

verus! {

/// A number with its sign, also where it is not negative.
pub open spec fn with_sign(n: int) -> Seq<char> {
    if n < 0 {
        signed_decimal(n)
    } else {
        "+"@ + signed_decimal(n)
    }
}

/// A number with its sign, also where it is not negative.
pub fn sign_text(n: i64) -> (text: String)
    ensures
        text@ == with_sign(n as int),
{
    let number: String = signed_text(n);
    if n < 0 {
        number
    } else {
        let mut text: String = owned("+");
        text.append(number.as_str());
        text
    }
}

/// The parts of [`collecting_line`].
pub open spec fn collecting_line_parts() -> Seq<Seq<char>> {
    seq![
        "📸 Collecting price snapshot...\n"@,
    ]
}

/// What is told before prices are collected.
pub fn collecting_line() -> (text: String)
    ensures
        text@ == concatenated(collecting_line_parts()),
{
    let parts: Vec<String> = vec![
        owned("📸 Collecting price snapshot...\n"),
    ];
    assert(texts(parts@) =~= collecting_line_parts());
    chain(&parts)
}

/// The parts of [`venue_line`].
pub open spec fn venue_line_parts(venue: Seq<char>, count: usize) -> Seq<Seq<char>> {
    seq![
        "  ✅ "@,
        venue,
        ": "@,
        decimal(count as nat),
        " markets\n"@,
    ]
}

/// How many markets of a venue were collected.
pub fn venue_line(venue: &str, count: usize) -> (text: String)
    ensures
        text@ == concatenated(venue_line_parts(venue@, count)),
{
    let parts: Vec<String> = vec![
        owned("  ✅ "),
        owned(venue),
        owned(": "),
        unsigned_text(count as u64),
        owned(" markets\n"),
    ];
    assert(texts(parts@) =~= venue_line_parts(venue@, count));
    chain(&parts)
}

/// The parts of [`fetch_failed_line`].
pub open spec fn fetch_failed_line_parts(series: Seq<char>, reason: Seq<char>) -> Seq<Seq<char>> {
    seq![
        "  ⚠️ Failed to fetch "@,
        series,
        ": "@,
        reason,
        "\n"@,
    ]
}

/// That a series could not be fetched.
pub fn fetch_failed_line(series: &str, reason: &str) -> (text: String)
    ensures
        text@ == concatenated(fetch_failed_line_parts(series@, reason@)),
{
    let parts: Vec<String> = vec![
        owned("  ⚠️ Failed to fetch "),
        owned(series),
        owned(": "),
        owned(reason),
        owned("\n"),
    ];
    assert(texts(parts@) =~= fetch_failed_line_parts(series@, reason@));
    chain(&parts)
}

/// The parts of [`near_arbs_head`].
pub open spec fn near_arbs_head_parts() -> Seq<Seq<char>> {
    seq![
        "\n📊 Near-arbitrage opportunities found:\n"@,
    ]
}

/// The head of the list of near arbitrages.
pub fn near_arbs_head() -> (text: String)
    ensures
        text@ == concatenated(near_arbs_head_parts()),
{
    let parts: Vec<String> = vec![
        owned("\n📊 Near-arbitrage opportunities found:\n"),
    ];
    assert(texts(parts@) =~= near_arbs_head_parts());
    chain(&parts)
}

/// The parts of [`near_arb_line`].
pub open spec fn near_arb_line_parts(arb: NearArb) -> Seq<Seq<char>> {
    seq![
        "  "@,
        arb.ticker@,
        " | cost="@,
        signed_decimal(arb.cost as int),
        "¢ | potential="@,
        with_sign(arb.profit as int),
        "¢\n"@,
    ]
}

/// A line of the list of near arbitrages.
pub fn near_arb_line(arb: &NearArb) -> (text: String)
    ensures
        text@ == concatenated(near_arb_line_parts(*arb)),
{
    let parts: Vec<String> = vec![
        owned("  "),
        owned(arb.ticker.as_str()),
        owned(" | cost="),
        signed_text(arb.cost as i64),
        owned("¢ | potential="),
        sign_text(arb.profit),
        owned("¢\n"),
    ];
    assert(texts(parts@) =~= near_arb_line_parts(*arb));
    chain(&parts)
}

/// The parts of [`collected_line`].
pub open spec fn collected_line_parts(timestamp: i64) -> Seq<Seq<char>> {
    seq![
        "\n✅ Snapshot complete at "@,
        signed_decimal(timestamp as int),
        "\n"@,
    ]
}

/// What is told after prices were collected.
pub fn collected_line(timestamp: i64) -> (text: String)
    ensures
        text@ == concatenated(collected_line_parts(timestamp)),
{
    let parts: Vec<String> = vec![
        owned("\n✅ Snapshot complete at "),
        signed_text(timestamp as i64),
        owned("\n"),
    ];
    assert(texts(parts@) =~= collected_line_parts(timestamp));
    chain(&parts)
}

/// The parts of [`moment_lines`].
pub open spec fn moment_lines_parts(kalshi: usize, polymarket: usize) -> Seq<Seq<char>> {
    seq![
        "Snapshots collected:\n  Kalshi: "@,
        decimal(kalshi as nat),
        " timestamps\n  Polymarket: "@,
        decimal(polymarket as nat),
        " timestamps\n"@,
    ]
}

/// How many moments were collected from each venue.
pub fn moment_lines(kalshi: usize, polymarket: usize) -> (text: String)
    ensures
        text@ == concatenated(moment_lines_parts(kalshi, polymarket)),
{
    let parts: Vec<String> = vec![
        owned("Snapshots collected:\n  Kalshi: "),
        unsigned_text(kalshi as u64),
        owned(" timestamps\n  Polymarket: "),
        unsigned_text(polymarket as u64),
        owned(" timestamps\n"),
    ];
    assert(texts(parts@) =~= moment_lines_parts(kalshi, polymarket));
    chain(&parts)
}

/// The columns of [`best_quote_head`].
pub open spec fn best_quote_head_columns() -> Seq<Column> {
    seq![
        left("Timestamp"@, 12, ""@),
        left("Ticker"@, 30, ""@),
        right("YES"@, 6, ""@),
        right("NO"@, 6, ""@),
        right("Cost"@, 6, ""@),
    ]
}

/// The head of the list of the best quotes.
pub fn best_quote_head() -> (line: String)
    ensures
        line@ == row_text(best_quote_head_columns()),
{
    let cells: Vec<Cell> = vec![
        left_cell(owned("Timestamp"), 12, ""),
        left_cell(owned("Ticker"), 30, ""),
        right_cell(owned("YES"), 6, ""),
        right_cell(owned("NO"), 6, ""),
        right_cell(owned("Cost"), 6, ""),
    ];
    assert(columns(cells@) =~= best_quote_head_columns());
    table_row(&cells)
}

/// The columns of [`best_quote_row`].
pub open spec fn best_quote_row_columns(quote: BestQuote) -> Seq<Column> {
    seq![
        left(signed_decimal(quote.timestamp as int), 12, ""@),
        left(first_chars(quote.ticker@, 30), 30, ""@),
        right(signed_decimal(quote.yes_ask as int), 5, "¢"@),
        right(signed_decimal(quote.no_ask as int), 5, "¢"@),
        right(signed_decimal(quote.cost as int), 5, "¢"@),
    ]
}

/// A line of the list of the best quotes.
pub fn best_quote_row(quote: &BestQuote) -> (line: String)
    ensures
        line@ == row_text(best_quote_row_columns(*quote)),
{
    let cells: Vec<Cell> = vec![
        left_cell(signed_text(quote.timestamp as i64), 12, ""),
        left_cell(cut(quote.ticker.as_str(), 30), 30, ""),
        right_cell(signed_text(quote.yes_ask as i64), 5, "¢"),
        right_cell(signed_text(quote.no_ask as i64), 5, "¢"),
        right_cell(signed_text(quote.cost as i64), 5, "¢"),
    ];
    assert(columns(cells@) =~= best_quote_row_columns(*quote));
    table_row(&cells)
}

/// The columns of [`bucket_row`].
pub open spec fn bucket_row_columns(bucket: CostBucket, count: u64) -> Seq<Column> {
    seq![
        left(" "@, 0, ""@),
        left(bucket.title(), 20, ""@),
        right(decimal(count as nat), 6, ""@),
    ]
}

/// A line of the distribution of prices.
pub fn bucket_row(bucket: CostBucket, count: u64) -> (line: String)
    ensures
        line@ == row_text(bucket_row_columns(bucket, count)),
{
    let cells: Vec<Cell> = vec![
        left_cell(owned(" "), 0, ""),
        left_cell(owned(bucket.label()), 20, ""),
        right_cell(unsigned_text(count as u64), 6, ""),
    ];
    assert(columns(cells@) =~= bucket_row_columns(bucket, count));
    table_row(&cells)
}

/// What [`near_arb_table`] shows, line by line.
pub open spec fn near_arb_table_rows(arbs: Seq<NearArb>) -> Seq<Seq<char>> {
    Seq::new(arbs.len(), |i: int| concatenated(near_arb_line_parts(arbs[i])))
}

/// The near arbitrages.
pub fn near_arb_table(arbs: &Vec<NearArb>) -> (text: String)
    ensures
        text@ == concatenated(near_arb_table_rows(arbs@)),
{
    let mut shown: Vec<String> = Vec::new();
    let mut i: usize = 0;
    while i < arbs.len()
        invariant
            i <= arbs@.len(),
            shown@.len() == i,
            forall|j: int| 0 <= j < i ==> (#[trigger] shown@[j])@ == near_arb_table_rows(arbs@)[j],
        decreases arbs@.len() - i,
    {
        shown.push(near_arb_line(&arbs[i]));
        i += 1;
    }
    assert(texts(shown@) =~= near_arb_table_rows(arbs@));
    chain(&shown)
}

/// The near arbitrages under their head; nothing where there are none.
pub open spec fn near_arb_list_text(arbs: Seq<NearArb>) -> Seq<char> {
    if arbs.len() == 0 {
        Seq::empty()
    } else {
        concatenated(near_arbs_head_parts()) + concatenated(near_arb_table_rows(arbs))
    }
}

/// The near arbitrages under their head; nothing where there are none.
pub fn near_arb_list(arbs: &Vec<NearArb>) -> (text: String)
    ensures
        text@ == near_arb_list_text(arbs@),
{
    if arbs.len() == 0 {
        return String::new();
    }
    let mut text: String = near_arbs_head();
    text.append(near_arb_table(arbs).as_str());
    text
}

/// The parts of [`analysis_opening`].
pub open spec fn analysis_opening_parts() -> Seq<Seq<char>> {
    seq![
        concatenated(banner_parts("PRICE SNAPSHOT ANALYSIS"@, 60)),
    ]
}

/// The start of the analysis.
pub fn analysis_opening() -> (text: String)
    ensures
        text@ == concatenated(analysis_opening_parts()),
{
    let parts: Vec<String> = vec![
        banner("PRICE SNAPSHOT ANALYSIS", 60),
    ];
    assert(texts(parts@) =~= analysis_opening_parts());
    chain(&parts)
}

/// The parts of [`analysis_overview`].
pub open spec fn analysis_overview_parts(kalshi: usize, polymarket: usize) -> Seq<Seq<char>> {
    seq![
        concatenated(moment_lines_parts(kalshi, polymarket)),
        concatenated(section_parts("BEST HISTORICAL OPPORTUNITIES"@)),
    ]
}

/// How much was collected, up to the best quotes.
pub fn analysis_overview(kalshi: usize, polymarket: usize) -> (text: String)
    ensures
        text@ == concatenated(analysis_overview_parts(kalshi, polymarket)),
{
    let parts: Vec<String> = vec![
        moment_lines(kalshi, polymarket),
        section("BEST HISTORICAL OPPORTUNITIES"),
    ];
    assert(texts(parts@) =~= analysis_overview_parts(kalshi, polymarket));
    chain(&parts)
}

/// What [`best_quote_table`] shows, line by line.
pub open spec fn best_quote_table_rows(quotes: Seq<BestQuote>) -> Seq<Seq<char>> {
    Seq::new(quotes.len(), |i: int| row_text(best_quote_row_columns(quotes[i])))
}

/// The lines of the list of the best quotes.
pub fn best_quote_table(quotes: &Vec<BestQuote>) -> (text: String)
    ensures
        text@ == concatenated(best_quote_table_rows(quotes@)),
{
    let mut shown: Vec<String> = Vec::new();
    let mut i: usize = 0;
    while i < quotes.len()
        invariant
            i <= quotes@.len(),
            shown@.len() == i,
            forall|j: int| 0 <= j < i ==> (#[trigger] shown@[j])@ == best_quote_table_rows(quotes@)[j],
        decreases quotes@.len() - i,
    {
        shown.push(best_quote_row(&quotes[i]));
        i += 1;
    }
    assert(texts(shown@) =~= best_quote_table_rows(quotes@));
    chain(&shown)
}

/// The parts of [`analysis_best`].
pub open spec fn analysis_best_parts(quotes: Seq<BestQuote>) -> Seq<Seq<char>> {
    seq![
        row_text(best_quote_head_columns()),
        concatenated(best_quote_table_rows(quotes)),
        concatenated(section_parts("PRICE DISTRIBUTION (Kalshi)"@)),
    ]
}

/// The best quotes, up to the distribution of prices.
pub fn analysis_best(quotes: &Vec<BestQuote>) -> (text: String)
    ensures
        text@ == concatenated(analysis_best_parts(quotes@)),
{
    let parts: Vec<String> = vec![
        best_quote_head(),
        best_quote_table(quotes),
        section("PRICE DISTRIBUTION (Kalshi)"),
    ];
    assert(texts(parts@) =~= analysis_best_parts(quotes@));
    chain(&parts)
}

/// What [`bucket_table`] shows, line by line.
pub open spec fn bucket_table_rows(buckets: Seq<(CostBucket, u64)>) -> Seq<Seq<char>> {
    Seq::new(buckets.len(), |i: int| row_text(bucket_row_columns(buckets[i].0, buckets[i].1)))
}

/// The lines of the distribution of prices.
pub fn bucket_table(buckets: &Vec<(CostBucket, u64)>) -> (text: String)
    ensures
        text@ == concatenated(bucket_table_rows(buckets@)),
{
    let mut shown: Vec<String> = Vec::new();
    let mut i: usize = 0;
    while i < buckets.len()
        invariant
            i <= buckets@.len(),
            shown@.len() == i,
            forall|j: int| 0 <= j < i ==> (#[trigger] shown@[j])@ == bucket_table_rows(buckets@)[j],
        decreases buckets@.len() - i,
    {
        shown.push(bucket_row(buckets[i].0, buckets[i].1));
        i += 1;
    }
    assert(texts(shown@) =~= bucket_table_rows(buckets@));
    chain(&shown)
}

/// The parts of [`analysis_distribution`].
pub open spec fn analysis_distribution_parts(buckets: Seq<(CostBucket, u64)>) -> Seq<Seq<char>> {
    seq![
        concatenated(bucket_table_rows(buckets)),
        concatenated(spaced_closing_parts(60)),
    ]
}

/// The distribution of prices, and the end of the analysis.
pub fn analysis_distribution(buckets: &Vec<(CostBucket, u64)>) -> (text: String)
    ensures
        text@ == concatenated(analysis_distribution_parts(buckets@)),
{
    let parts: Vec<String> = vec![
        bucket_table(buckets),
        spaced_closing(60),
    ];
    assert(texts(parts@) =~= analysis_distribution_parts(buckets@));
    chain(&parts)
}

} // verus!
