//! The texts of the backtest reports.
//!
//! Numbers that are computed in doubles come as texts: rounding them is left to the
//! caller. All else, the wording and the columns, stands here.

use crate::analytics::{ArbTypeStats, SlippageAnalysis, StrategyStats};
use crate::layout::{columns, left, left_cell, right, right_cell, row_text, table_row, Cell, Column};
use crate::ranking::{are_lowest, order_texts, text_keys};
use crate::sessions::SessionInfo;
use crate::text::{
    byte_slice, can_slice, chain, concatenated, cut, decimal, first_chars, owned, signed_decimal,
    signed_text, slice, sliceable, texts, unsigned_text,
};
use vstd::prelude::*;
use vstd::string::*;

verus! {

/// A count, or a hyphen where there is none.
pub open spec fn count_or_dash(n: Option<u32>) -> Seq<char> {
    match n {
        Some(v) => decimal(v as nat),
        None => "-"@,
    }
}

/// A count, or a hyphen where there is none.
fn dashed_count(n: Option<u32>) -> (text: String)
    ensures
        text@ == count_or_dash(n),
{
    match n {
        Some(v) => unsigned_text(v as u64),
        None => owned("-"),
    }
}

/// An optional number, zero where there is none.
pub open spec fn or_zero(n: Option<i32>) -> int {
    match n {
        Some(v) => v as int,
        None => 0,
    }
}

/// An optional number, zero where there is none.
fn number_or_zero(n: Option<i32>) -> (value: i64)
    ensures
        value == or_zero(n),
{
    match n {
        Some(v) => v as i64,
        None => 0,
    }
}

/// An optional text, or another where there is none.
pub open spec fn text_or(s: Option<String>, other: Seq<char>) -> Seq<char> {
    match s {
        Some(t) => t@,
        None => other,
    }
}

/// An optional text, or another where there is none.
fn text_or_else(s: &Option<String>, other: &str) -> (text: String)
    ensures
        text@ == text_or(*s, other@),
{
    match s {
        Some(t) => t.clone(),
        None => owned(other),
    }
}

/// Whether the moments of a session can be shown: the day is at the front, and the
/// time of day at its place behind it.
pub open spec fn moments_readable(info: SessionInfo) -> bool {
    &&& sliceable(info.started_at@, 0, 10)
    &&& match info.ended_at {
        Some(ended) => sliceable(info.started_at@, 11, 19) && sliceable(ended@, 11, 19),
        None => true,
    }
}

/// Whether the moments of a session can be shown.
pub fn can_show_moments(info: &SessionInfo) -> (yes: bool)
    ensures
        yes == moments_readable(*info),
{
    can_slice(info.started_at.as_str(), 0, 10) && match &info.ended_at {
        Some(ended) => can_slice(info.started_at.as_str(), 11, 19) && can_slice(
            ended.as_str(),
            11,
            19,
        ),
        None => true,
    }
}

/// The times of day between which a session ran.
pub open spec fn running_time(info: SessionInfo) -> Seq<char> {
    match info.ended_at {
        Some(ended) => byte_slice(info.started_at@, 11, 19) + " - "@ + byte_slice(ended@, 11, 19),
        None => "running..."@,
    }
}

/// The times of day between which a session ran.
fn show_running_time(info: &SessionInfo) -> (text: String)
    requires
        moments_readable(*info),
    ensures
        text@ == running_time(*info),
{
    match &info.ended_at {
        Some(ended) => {
            let mut text: String = owned(slice(info.started_at.as_str(), 11, 19));
            text.append(" - ");
            text.append(slice(ended.as_str(), 11, 19));
            text
        },
        None => owned("running..."),
    }
}

/// The columns of [`session_table_head`].
pub open spec fn session_table_head_columns() -> Seq<Column> {
    seq![
        left("Session ID"@, 30, ""@),
        right("Started"@, 12, ""@),
        right("Duration"@, 10, ""@),
        right("Markets"@, 10, ""@),
        right("Opps"@, 10, ""@),
    ]
}

/// The head of the list of sessions.
pub fn session_table_head() -> (line: String)
    ensures
        line@ == row_text(session_table_head_columns()),
{
    let cells: Vec<Cell> = vec![
        left_cell(owned("Session ID"), 30, ""),
        right_cell(owned("Started"), 12, ""),
        right_cell(owned("Duration"), 10, ""),
        right_cell(owned("Markets"), 10, ""),
        right_cell(owned("Opps"), 10, ""),
    ];
    assert(columns(cells@) =~= session_table_head_columns());
    table_row(&cells)
}

/// The columns of [`session_row`].
pub open spec fn session_row_columns(info: SessionInfo) -> Seq<Column> {
    seq![
        left(first_chars(info.id@, 30), 30, ""@),
        right(byte_slice(info.started_at@, 0, 10), 12, ""@),
        right(running_time(info), 10, ""@),
        right(count_or_dash(info.markets_tracked), 10, ""@),
        right(count_or_dash(info.opportunities_detected), 10, ""@),
    ]
}

/// A line of the list of sessions.
pub fn session_row(info: &SessionInfo) -> (line: String)
    requires
        moments_readable(*info),
    ensures
        line@ == row_text(session_row_columns(*info)),
{
    let cells: Vec<Cell> = vec![
        left_cell(cut(info.id.as_str(), 30), 30, ""),
        right_cell(owned(slice(info.started_at.as_str(), 0, 10)), 12, ""),
        right_cell(show_running_time(info), 10, ""),
        right_cell(dashed_count(info.markets_tracked), 10, ""),
        right_cell(dashed_count(info.opportunities_detected), 10, ""),
    ];
    assert(columns(cells@) =~= session_row_columns(*info));
    table_row(&cells)
}

/// The parts of [`report_title`].
pub open spec fn report_title_parts(session_id: Seq<char>) -> Seq<Seq<char>> {
    seq![
        "BACKTEST REPORT: "@,
        session_id,
    ]
}

/// The title of the report on a session.
pub fn report_title(session_id: &str) -> (text: String)
    ensures
        text@ == concatenated(report_title_parts(session_id@)),
{
    let parts: Vec<String> = vec![
        owned("BACKTEST REPORT: "),
        owned(session_id),
    ];
    assert(texts(parts@) =~= report_title_parts(session_id@));
    chain(&parts)
}

/// The parts of [`session_facts`].
pub open spec fn session_facts_parts(info: SessionInfo) -> Seq<Seq<char>> {
    seq![
        "Session Info:\n  Started:      "@,
        info.started_at@,
        "\n  Ended:        "@,
        text_or(info.ended_at, "running..."@),
        "\n  Markets:      "@,
        count_or_dash(info.markets_tracked),
        "\n  Opportunities: "@,
        count_or_dash(info.opportunities_detected),
        "\n"@,
    ]
}

/// What is known of a session.
pub fn session_facts(info: &SessionInfo) -> (text: String)
    ensures
        text@ == concatenated(session_facts_parts(*info)),
{
    let parts: Vec<String> = vec![
        owned("Session Info:\n  Started:      "),
        owned(info.started_at.as_str()),
        owned("\n  Ended:        "),
        text_or_else(&info.ended_at, "running..."),
        owned("\n  Markets:      "),
        dashed_count(info.markets_tracked),
        owned("\n  Opportunities: "),
        dashed_count(info.opportunities_detected),
        owned("\n"),
    ];
    assert(texts(parts@) =~= session_facts_parts(*info));
    chain(&parts)
}

/// The numbers of a summary that are computed in doubles, as texts.
#[derive(Debug)]
pub struct SummaryTexts {
    /// The share of confirmed opportunities, in percent, with one decimal.
    pub confirmed_percent: String,
    /// The share of slipped opportunities, in percent, with one decimal.
    pub slipped_percent: String,
    /// The mean of the detected profits, in cents, with two decimals.
    pub avg_profit: String,
    /// The mean of the adjusted profits, in cents, with two decimals.
    pub avg_adjusted_profit: String,
    /// The mean fill probability, in percent, with one decimal.
    pub avg_fill_percent: String,
    /// The mean duration, in milliseconds, with one decimal.
    pub avg_duration_ms: String,
    /// The sum of the detected profits, in cents.
    pub theoretical_cents: String,
    /// The sum of the detected profits, in dollars, with two decimals.
    pub theoretical_dollars: String,
    /// The expected profit, in cents.
    pub expected_cents: String,
    /// The expected profit, in dollars, with two decimals.
    pub expected_dollars: String,
}

/// The parts of [`session_summary_lines`].
pub open spec fn session_summary_lines_parts(
    total: u32,
    confirmed: u32,
    slipped: u32,
    shown: SummaryTexts,
) -> Seq<Seq<char>> {
    seq![
        "Total Opportunities:    "@,
        decimal(total as nat),
        "\nConfirmed:              "@,
        decimal(confirmed as nat),
        " ("@,
        shown.confirmed_percent@,
        "%)\nSlipped:                "@,
        decimal(slipped as nat),
        " ("@,
        shown.slipped_percent@,
        "%)\nAvg Detected Profit:    "@,
        shown.avg_profit@,
        "¢\nAvg Adjusted Profit:    "@,
        shown.avg_adjusted_profit@,
        "¢\nAvg Fill Probability:   "@,
        shown.avg_fill_percent@,
        "%\nTotal Theoretical:      "@,
        shown.theoretical_cents@,
        "¢ ($"@,
        shown.theoretical_dollars@,
        ")\nTotal Expected:         "@,
        shown.expected_cents@,
        "¢ ($"@,
        shown.expected_dollars@,
        ")\n"@,
    ]
}

/// The summary in the report on a session.
pub fn session_summary_lines(
    total: u32,
    confirmed: u32,
    slipped: u32,
    shown: &SummaryTexts,
) -> (text: String)
    ensures
        text@ == concatenated(session_summary_lines_parts(total, confirmed, slipped, *shown)),
{
    let parts: Vec<String> = vec![
        owned("Total Opportunities:    "),
        unsigned_text(total as u64),
        owned("\nConfirmed:              "),
        unsigned_text(confirmed as u64),
        owned(" ("),
        owned(shown.confirmed_percent.as_str()),
        owned("%)\nSlipped:                "),
        unsigned_text(slipped as u64),
        owned(" ("),
        owned(shown.slipped_percent.as_str()),
        owned("%)\nAvg Detected Profit:    "),
        owned(shown.avg_profit.as_str()),
        owned("¢\nAvg Adjusted Profit:    "),
        owned(shown.avg_adjusted_profit.as_str()),
        owned("¢\nAvg Fill Probability:   "),
        owned(shown.avg_fill_percent.as_str()),
        owned("%\nTotal Theoretical:      "),
        owned(shown.theoretical_cents.as_str()),
        owned("¢ ($"),
        owned(shown.theoretical_dollars.as_str()),
        owned(")\nTotal Expected:         "),
        owned(shown.expected_cents.as_str()),
        owned("¢ ($"),
        owned(shown.expected_dollars.as_str()),
        owned(")\n"),
    ];
    assert(texts(parts@) =~= session_summary_lines_parts(total, confirmed, slipped, *shown));
    chain(&parts)
}

/// The parts of [`short_summary_lines`].
pub open spec fn short_summary_lines_parts(
    total: u32,
    confirmed: u32,
    slipped: u32,
    shown: SummaryTexts,
) -> Seq<Seq<char>> {
    seq![
        "Total Opportunities:     "@,
        decimal(total as nat),
        "\nConfirmed:               "@,
        decimal(confirmed as nat),
        " ("@,
        shown.confirmed_percent@,
        "%)\nSlipped:                 "@,
        decimal(slipped as nat),
        " ("@,
        shown.slipped_percent@,
        "%)\nAvg Profit (detected):   "@,
        shown.avg_profit@,
        "¢\nAvg Profit (adjusted):   "@,
        shown.avg_adjusted_profit@,
        "¢\nAvg Fill Probability:    "@,
        shown.avg_fill_percent@,
        "%\nAvg Duration:            "@,
        shown.avg_duration_ms@,
        "ms\nTotal Theoretical:       "@,
        shown.theoretical_cents@,
        "¢\nTotal Expected:          "@,
        shown.expected_cents@,
        "¢\n"@,
    ]
}

/// The summary in the short report.
pub fn short_summary_lines(
    total: u32,
    confirmed: u32,
    slipped: u32,
    shown: &SummaryTexts,
) -> (text: String)
    ensures
        text@ == concatenated(short_summary_lines_parts(total, confirmed, slipped, *shown)),
{
    let parts: Vec<String> = vec![
        owned("Total Opportunities:     "),
        unsigned_text(total as u64),
        owned("\nConfirmed:               "),
        unsigned_text(confirmed as u64),
        owned(" ("),
        owned(shown.confirmed_percent.as_str()),
        owned("%)\nSlipped:                 "),
        unsigned_text(slipped as u64),
        owned(" ("),
        owned(shown.slipped_percent.as_str()),
        owned("%)\nAvg Profit (detected):   "),
        owned(shown.avg_profit.as_str()),
        owned("¢\nAvg Profit (adjusted):   "),
        owned(shown.avg_adjusted_profit.as_str()),
        owned("¢\nAvg Fill Probability:    "),
        owned(shown.avg_fill_percent.as_str()),
        owned("%\nAvg Duration:            "),
        owned(shown.avg_duration_ms.as_str()),
        owned("ms\nTotal Theoretical:       "),
        owned(shown.theoretical_cents.as_str()),
        owned("¢\nTotal Expected:          "),
        owned(shown.expected_cents.as_str()),
        owned("¢\n"),
    ];
    assert(texts(parts@) =~= short_summary_lines_parts(total, confirmed, slipped, *shown));
    chain(&parts)
}

/// The columns of [`strategy_table_head`].
pub open spec fn strategy_table_head_columns() -> Seq<Column> {
    seq![
        left("Strategy"@, 22, ""@),
        right("Tot"@, 5, ""@),
        right("Conf"@, 5, ""@),
        right("Slip"@, 5, ""@),
        right("AvgP"@, 7, ""@),
        right("AdjP"@, 7, ""@),
        right("ExpProf"@, 8, ""@),
    ]
}

/// The head of the table of strategies.
pub fn strategy_table_head() -> (line: String)
    ensures
        line@ == row_text(strategy_table_head_columns()),
{
    let cells: Vec<Cell> = vec![
        left_cell(owned("Strategy"), 22, ""),
        right_cell(owned("Tot"), 5, ""),
        right_cell(owned("Conf"), 5, ""),
        right_cell(owned("Slip"), 5, ""),
        right_cell(owned("AvgP"), 7, ""),
        right_cell(owned("AdjP"), 7, ""),
        right_cell(owned("ExpProf"), 8, ""),
    ];
    assert(columns(cells@) =~= strategy_table_head_columns());
    table_row(&cells)
}

/// The columns of [`strategy_row`].
pub open spec fn strategy_row_columns(
    stats: StrategyStats,
    avg_profit: Seq<char>,
    avg_adjusted_profit: Seq<char>,
    expected: Seq<char>,
) -> Seq<Column> {
    seq![
        left(first_chars(stats.strategy_id@, 22), 22, ""@),
        right(decimal(stats.total_opportunities as nat), 5, ""@),
        right(decimal(stats.confirmed as nat), 5, ""@),
        right(decimal(stats.slipped as nat), 5, ""@),
        right(avg_profit, 6, "¢"@),
        right(avg_adjusted_profit, 6, "¢"@),
        right(expected, 7, "¢"@),
    ]
}

/// A line of the table of strategies.
pub fn strategy_row(
    stats: &StrategyStats,
    avg_profit: &str,
    avg_adjusted_profit: &str,
    expected: &str,
) -> (line: String)
    ensures
        line@ == row_text(strategy_row_columns(*stats, avg_profit@, avg_adjusted_profit@, expected@)),
{
    let cells: Vec<Cell> = vec![
        left_cell(cut(stats.strategy_id.as_str(), 22), 22, ""),
        right_cell(unsigned_text(stats.total_opportunities as u64), 5, ""),
        right_cell(unsigned_text(stats.confirmed as u64), 5, ""),
        right_cell(unsigned_text(stats.slipped as u64), 5, ""),
        right_cell(owned(avg_profit), 6, "¢"),
        right_cell(owned(avg_adjusted_profit), 6, "¢"),
        right_cell(owned(expected), 7, "¢"),
    ];
    assert(columns(cells@) =~= strategy_row_columns(*stats, avg_profit@, avg_adjusted_profit@, expected@));
    table_row(&cells)
}

/// The columns of [`short_strategy_head`].
pub open spec fn short_strategy_head_columns() -> Seq<Column> {
    seq![
        left("Strategy"@, 20, ""@),
        right("Total"@, 6, ""@),
        right("Conf"@, 6, ""@),
        right("Slip"@, 6, ""@),
        right("AvgProf"@, 8, ""@),
        right("ExpProf"@, 8, ""@),
    ]
}

/// The head of the table of strategies in the short report.
pub fn short_strategy_head() -> (line: String)
    ensures
        line@ == row_text(short_strategy_head_columns()),
{
    let cells: Vec<Cell> = vec![
        left_cell(owned("Strategy"), 20, ""),
        right_cell(owned("Total"), 6, ""),
        right_cell(owned("Conf"), 6, ""),
        right_cell(owned("Slip"), 6, ""),
        right_cell(owned("AvgProf"), 8, ""),
        right_cell(owned("ExpProf"), 8, ""),
    ];
    assert(columns(cells@) =~= short_strategy_head_columns());
    table_row(&cells)
}

/// The columns of [`short_strategy_row`].
pub open spec fn short_strategy_row_columns(
    stats: StrategyStats,
    avg_profit: Seq<char>,
    expected: Seq<char>,
) -> Seq<Column> {
    seq![
        left(first_chars(stats.strategy_id@, 20), 20, ""@),
        right(decimal(stats.total_opportunities as nat), 6, ""@),
        right(decimal(stats.confirmed as nat), 6, ""@),
        right(decimal(stats.slipped as nat), 6, ""@),
        right(avg_profit, 7, "¢"@),
        right(expected, 7, "¢"@),
    ]
}

/// A line of the table of strategies in the short report.
pub fn short_strategy_row(stats: &StrategyStats, avg_profit: &str, expected: &str) -> (line: String)
    ensures
        line@ == row_text(short_strategy_row_columns(*stats, avg_profit@, expected@)),
{
    let cells: Vec<Cell> = vec![
        left_cell(cut(stats.strategy_id.as_str(), 20), 20, ""),
        right_cell(unsigned_text(stats.total_opportunities as u64), 6, ""),
        right_cell(unsigned_text(stats.confirmed as u64), 6, ""),
        right_cell(unsigned_text(stats.slipped as u64), 6, ""),
        right_cell(owned(avg_profit), 7, "¢"),
        right_cell(owned(expected), 7, "¢"),
    ];
    assert(columns(cells@) =~= short_strategy_row_columns(*stats, avg_profit@, expected@));
    table_row(&cells)
}

/// The parts of [`slippage_lines`].
pub open spec fn slippage_lines_parts(
    slipped: u32,
    analysis: SlippageAnalysis,
    avg_slippage: Seq<char>,
    avg_ticks: Seq<char>,
) -> Seq<Seq<char>> {
    seq![
        "Slipped Opportunities:  "@,
        decimal(slipped as nat),
        "\nAvg Slippage:           "@,
        avg_slippage,
        "¢\nMax Slippage:           "@,
        signed_decimal(or_zero(analysis.max_slippage)),
        "¢\nMin Slippage:           "@,
        signed_decimal(or_zero(analysis.min_slippage)),
        "¢\nAvg Ticks Before Slip:  "@,
        avg_ticks,
        "\n"@,
    ]
}

/// The slippage in the report on a session.
pub fn slippage_lines(
    slipped: u32,
    analysis: &SlippageAnalysis,
    avg_slippage: &str,
    avg_ticks: &str,
) -> (text: String)
    ensures
        text@ == concatenated(slippage_lines_parts(slipped, *analysis, avg_slippage@, avg_ticks@)),
{
    let parts: Vec<String> = vec![
        owned("Slipped Opportunities:  "),
        unsigned_text(slipped as u64),
        owned("\nAvg Slippage:           "),
        owned(avg_slippage),
        owned("¢\nMax Slippage:           "),
        signed_text(number_or_zero(analysis.max_slippage)),
        owned("¢\nMin Slippage:           "),
        signed_text(number_or_zero(analysis.min_slippage)),
        owned("¢\nAvg Ticks Before Slip:  "),
        owned(avg_ticks),
        owned("\n"),
    ];
    assert(texts(parts@) =~= slippage_lines_parts(slipped, *analysis, avg_slippage@, avg_ticks@));
    chain(&parts)
}

/// The parts of [`short_slippage_lines`].
pub open spec fn short_slippage_lines_parts(
    analysis: SlippageAnalysis,
    avg_slippage: Seq<char>,
    avg_ticks: Seq<char>,
) -> Seq<Seq<char>> {
    seq![
        "Avg Slippage:            "@,
        avg_slippage,
        "¢\nMax Slippage:            "@,
        signed_decimal(or_zero(analysis.max_slippage)),
        "¢\nMin Slippage:            "@,
        signed_decimal(or_zero(analysis.min_slippage)),
        "¢\nAvg Ticks Before Slip:   "@,
        avg_ticks,
        "\n"@,
    ]
}

/// The slippage in the short report.
pub fn short_slippage_lines(
    analysis: &SlippageAnalysis,
    avg_slippage: &str,
    avg_ticks: &str,
) -> (text: String)
    ensures
        text@ == concatenated(short_slippage_lines_parts(*analysis, avg_slippage@, avg_ticks@)),
{
    let parts: Vec<String> = vec![
        owned("Avg Slippage:            "),
        owned(avg_slippage),
        owned("¢\nMax Slippage:            "),
        signed_text(number_or_zero(analysis.max_slippage)),
        owned("¢\nMin Slippage:            "),
        signed_text(number_or_zero(analysis.min_slippage)),
        owned("¢\nAvg Ticks Before Slip:   "),
        owned(avg_ticks),
        owned("\n"),
    ];
    assert(texts(parts@) =~= short_slippage_lines_parts(*analysis, avg_slippage@, avg_ticks@));
    chain(&parts)
}

/// The columns of [`arb_type_table_head`].
pub open spec fn arb_type_table_head_columns() -> Seq<Column> {
    seq![
        left("Arb Type"@, 25, ""@),
        right("Count"@, 6, ""@),
        right("AvgProf"@, 8, ""@),
        right("FillPr"@, 8, ""@),
        right("Expected"@, 10, ""@),
    ]
}

/// The head of the table of kinds of arbitrage.
pub fn arb_type_table_head() -> (line: String)
    ensures
        line@ == row_text(arb_type_table_head_columns()),
{
    let cells: Vec<Cell> = vec![
        left_cell(owned("Arb Type"), 25, ""),
        right_cell(owned("Count"), 6, ""),
        right_cell(owned("AvgProf"), 8, ""),
        right_cell(owned("FillPr"), 8, ""),
        right_cell(owned("Expected"), 10, ""),
    ];
    assert(columns(cells@) =~= arb_type_table_head_columns());
    table_row(&cells)
}

/// The columns of [`arb_type_row`].
pub open spec fn arb_type_row_columns(
    stats: ArbTypeStats,
    avg_profit: Seq<char>,
    fill_percent: Seq<char>,
    expected: Seq<char>,
) -> Seq<Column> {
    seq![
        left(stats.arb_type@, 25, ""@),
        right(decimal(stats.total_opportunities as nat), 6, ""@),
        right(avg_profit, 7, "¢"@),
        right(fill_percent, 7, "%"@),
        right(expected, 9, "¢"@),
    ]
}

/// A line of the table of kinds of arbitrage.
pub fn arb_type_row(
    stats: &ArbTypeStats,
    avg_profit: &str,
    fill_percent: &str,
    expected: &str,
) -> (line: String)
    ensures
        line@ == row_text(arb_type_row_columns(*stats, avg_profit@, fill_percent@, expected@)),
{
    let cells: Vec<Cell> = vec![
        left_cell(owned(stats.arb_type.as_str()), 25, ""),
        right_cell(unsigned_text(stats.total_opportunities as u64), 6, ""),
        right_cell(owned(avg_profit), 7, "¢"),
        right_cell(owned(fill_percent), 7, "%"),
        right_cell(owned(expected), 9, "¢"),
    ];
    assert(columns(cells@) =~= arb_type_row_columns(*stats, avg_profit@, fill_percent@, expected@));
    table_row(&cells)
}

/// What a report shows of one opportunity.
#[derive(Debug)]
pub struct TopOpportunity {
    pub market_description: String,
    pub strategy_id: String,
    pub arb_type: String,
    pub detected_profit: i32,
    pub adjusted_profit: i32,
    pub state: String,
    pub ticks_valid: u32,
}

/// The parts of [`top_opportunity_lines`].
pub open spec fn top_opportunity_lines_parts(
    opp: TopOpportunity,
    fill_percent: Seq<char>,
    expected: Seq<char>,
) -> Seq<Seq<char>> {
    seq![
        "  "@,
        first_chars(opp.market_description@, 50),
        "...\n    Strategy: "@,
        opp.strategy_id@,
        " | Type: "@,
        opp.arb_type@,
        " | State: "@,
        opp.state@,
        " ("@,
        decimal(opp.ticks_valid as nat),
        " ticks)\n    Detected: "@,
        signed_decimal(opp.detected_profit as int),
        "¢ | Adjusted: "@,
        signed_decimal(opp.adjusted_profit as int),
        "¢ | Fill: "@,
        fill_percent,
        "% | Expected: "@,
        expected,
        "¢\n\n"@,
    ]
}

/// One of the best opportunities.
pub fn top_opportunity_lines(
    opp: &TopOpportunity,
    fill_percent: &str,
    expected: &str,
) -> (text: String)
    ensures
        text@ == concatenated(top_opportunity_lines_parts(*opp, fill_percent@, expected@)),
{
    let parts: Vec<String> = vec![
        owned("  "),
        cut(opp.market_description.as_str(), 50),
        owned("...\n    Strategy: "),
        owned(opp.strategy_id.as_str()),
        owned(" | Type: "),
        owned(opp.arb_type.as_str()),
        owned(" | State: "),
        owned(opp.state.as_str()),
        owned(" ("),
        unsigned_text(opp.ticks_valid as u64),
        owned(" ticks)\n    Detected: "),
        signed_text(opp.detected_profit as i64),
        owned("¢ | Adjusted: "),
        signed_text(opp.adjusted_profit as i64),
        owned("¢ | Fill: "),
        owned(fill_percent),
        owned("% | Expected: "),
        owned(expected),
        owned("¢\n\n"),
    ];
    assert(texts(parts@) =~= top_opportunity_lines_parts(*opp, fill_percent@, expected@));
    chain(&parts)
}

/// The columns of [`comparison_head`].
pub open spec fn comparison_head_columns() -> Seq<Column> {
    seq![
        left("Strategy"@, 22, ""@),
        right("Total"@, 6, ""@),
        right("Conf"@, 5, "%"@),
        right("Slip"@, 5, "%"@),
        right("AvgDet"@, 6, ""@),
        right("AvgAdj"@, 6, ""@),
        right("Fill"@, 6, "%"@),
        right("Expected"@, 8, ""@),
        right("Ticks"@, 6, ""@),
    ]
}

/// The head of the comparison of strategies.
pub fn comparison_head() -> (line: String)
    ensures
        line@ == row_text(comparison_head_columns()),
{
    let cells: Vec<Cell> = vec![
        left_cell(owned("Strategy"), 22, ""),
        right_cell(owned("Total"), 6, ""),
        right_cell(owned("Conf"), 5, "%"),
        right_cell(owned("Slip"), 5, "%"),
        right_cell(owned("AvgDet"), 6, ""),
        right_cell(owned("AvgAdj"), 6, ""),
        right_cell(owned("Fill"), 6, "%"),
        right_cell(owned("Expected"), 8, ""),
        right_cell(owned("Ticks"), 6, ""),
    ];
    assert(columns(cells@) =~= comparison_head_columns());
    table_row(&cells)
}

/// The numbers of a strategy that are computed in doubles, as texts.
#[derive(Debug)]
pub struct ComparisonTexts {
    pub confirmed_percent: String,
    pub slipped_percent: String,
    pub avg_profit: String,
    pub avg_adjusted_profit: String,
    pub fill_percent: String,
    pub expected: String,
    pub avg_ticks: String,
}

/// The columns of [`comparison_row`].
pub open spec fn comparison_row_columns(
    stats: StrategyStats,
    shown: ComparisonTexts,
) -> Seq<Column> {
    seq![
        left(first_chars(stats.strategy_id@, 22), 22, ""@),
        right(decimal(stats.total_opportunities as nat), 6, ""@),
        right(shown.confirmed_percent@, 5, ""@),
        right(shown.slipped_percent@, 5, ""@),
        right(shown.avg_profit@, 5, "¢"@),
        right(shown.avg_adjusted_profit@, 5, "¢"@),
        right(shown.fill_percent@, 5, ""@),
        right(shown.expected@, 7, "¢"@),
        right(shown.avg_ticks@, 6, ""@),
    ]
}

/// A line of the comparison of strategies.
pub fn comparison_row(stats: &StrategyStats, shown: &ComparisonTexts) -> (line: String)
    ensures
        line@ == row_text(comparison_row_columns(*stats, *shown)),
{
    let cells: Vec<Cell> = vec![
        left_cell(cut(stats.strategy_id.as_str(), 22), 22, ""),
        right_cell(unsigned_text(stats.total_opportunities as u64), 6, ""),
        right_cell(owned(shown.confirmed_percent.as_str()), 5, ""),
        right_cell(owned(shown.slipped_percent.as_str()), 5, ""),
        right_cell(owned(shown.avg_profit.as_str()), 5, "¢"),
        right_cell(owned(shown.avg_adjusted_profit.as_str()), 5, "¢"),
        right_cell(owned(shown.fill_percent.as_str()), 5, ""),
        right_cell(owned(shown.expected.as_str()), 7, "¢"),
        right_cell(owned(shown.avg_ticks.as_str()), 6, ""),
    ];
    assert(columns(cells@) =~= comparison_row_columns(*stats, *shown));
    table_row(&cells)
}

/// The parts of [`best_profit_line`].
pub open spec fn best_profit_line_parts(
    strategy_id: Seq<char>,
    expected: Seq<char>,
) -> Seq<Seq<char>> {
    seq![
        "Best Expected Profit:   "@,
        strategy_id,
        " ("@,
        expected,
        "¢)\n"@,
    ]
}

/// The strategy with the highest expected profit.
pub fn best_profit_line(strategy_id: &str, expected: &str) -> (text: String)
    ensures
        text@ == concatenated(best_profit_line_parts(strategy_id@, expected@)),
{
    let parts: Vec<String> = vec![
        owned("Best Expected Profit:   "),
        owned(strategy_id),
        owned(" ("),
        owned(expected),
        owned("¢)\n"),
    ];
    assert(texts(parts@) =~= best_profit_line_parts(strategy_id@, expected@));
    chain(&parts)
}

/// The parts of [`best_rate_line`].
pub open spec fn best_rate_line_parts(
    strategy_id: Seq<char>,
    percent: Seq<char>,
) -> Seq<Seq<char>> {
    seq![
        "Best Confirmation Rate: "@,
        strategy_id,
        " ("@,
        percent,
        "%)\n"@,
    ]
}

/// The strategy with the highest rate of confirmation.
pub fn best_rate_line(strategy_id: &str, percent: &str) -> (text: String)
    ensures
        text@ == concatenated(best_rate_line_parts(strategy_id@, percent@)),
{
    let parts: Vec<String> = vec![
        owned("Best Confirmation Rate: "),
        owned(strategy_id),
        owned(" ("),
        owned(percent),
        owned("%)\n"),
    ];
    assert(texts(parts@) =~= best_rate_line_parts(strategy_id@, percent@));
    chain(&parts)
}

/// The parts of [`lowest_slippage_line`].
pub open spec fn lowest_slippage_line_parts(
    strategy_id: Seq<char>,
    slippage: Seq<char>,
) -> Seq<Seq<char>> {
    seq![
        "Lowest Avg Slippage:    "@,
        strategy_id,
        " ("@,
        slippage,
        "¢)\n"@,
    ]
}

/// The strategy with the lowest slippage.
pub fn lowest_slippage_line(strategy_id: &str, slippage: &str) -> (text: String)
    ensures
        text@ == concatenated(lowest_slippage_line_parts(strategy_id@, slippage@)),
{
    let parts: Vec<String> = vec![
        owned("Lowest Avg Slippage:    "),
        owned(strategy_id),
        owned(" ("),
        owned(slippage),
        owned("¢)\n"),
    ];
    assert(texts(parts@) =~= lowest_slippage_line_parts(strategy_id@, slippage@));
    chain(&parts)
}

/// A stored strategy.
#[derive(Debug)]
pub struct StrategyRecord {
    pub id: String,
    pub name: String,
    pub description: Option<String>,
    pub params_json: String,
    pub enabled: bool,
}

/// How it is shown whether a strategy is enabled.
pub open spec fn enabled_mark(enabled: bool) -> Seq<char> {
    if enabled {
        " [ENABLED]"@
    } else {
        " [DISABLED]"@
    }
}

/// How it is shown whether a strategy is enabled.
fn show_enabled(enabled: bool) -> (mark: String)
    ensures
        mark@ == enabled_mark(enabled),
{
    if enabled {
        owned(" [ENABLED]")
    } else {
        owned(" [DISABLED]")
    }
}

/// The parts of [`strategy_lines`].
pub open spec fn strategy_lines_parts(strategy: StrategyRecord) -> Seq<Seq<char>> {
    seq![
        "ID: "@,
        strategy.id@,
        enabled_mark(strategy.enabled),
        "\nName: "@,
        strategy.name@,
        "\nDescription: "@,
        text_or(strategy.description, ""@),
        "\nParameters: "@,
        strategy.params_json@,
        "\n\n"@,
    ]
}

/// A strategy in the list of strategies.
pub fn strategy_lines(strategy: &StrategyRecord) -> (text: String)
    ensures
        text@ == concatenated(strategy_lines_parts(*strategy)),
{
    let parts: Vec<String> = vec![
        owned("ID: "),
        owned(strategy.id.as_str()),
        show_enabled(strategy.enabled),
        owned("\nName: "),
        owned(strategy.name.as_str()),
        owned("\nDescription: "),
        text_or_else(&strategy.description, ""),
        owned("\nParameters: "),
        owned(strategy.params_json.as_str()),
        owned("\n\n"),
    ];
    assert(texts(parts@) =~= strategy_lines_parts(*strategy));
    chain(&parts)
}

/// The identifiers of a list of strategies.
pub open spec fn strategy_ids(strategies: Seq<StrategyRecord>) -> Seq<Seq<char>> {
    Seq::new(strategies.len(), |i: int| strategies[i].id@)
}

/// The order in which strategies are listed: by their identifiers.
pub fn order_strategies(strategies: &Vec<StrategyRecord>) -> (order: Vec<usize>)
    ensures
        are_lowest(
            text_keys(strategy_ids(strategies@), false),
            order@,
            strategies@.len(),
        ),
{
    let mut ids: Vec<String> = Vec::new();
    let mut i: usize = 0;
    while i < strategies.len()
        invariant
            i <= strategies@.len(),
            ids@.len() == i,
            forall|j: int| 0 <= j < i ==> (#[trigger] ids@[j])@ == strategies@[j].id@,
        decreases strategies@.len() - i,
    {
        ids.push(strategies[i].id.clone());
        i += 1;
    }
    assert(texts(ids@) =~= strategy_ids(strategies@));
    order_texts(&ids, false, strategies.len())
}

} // verus!
