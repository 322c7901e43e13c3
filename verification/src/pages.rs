//! The backtest reports as they are printed, part by part.
//!
//! A report is printed while its numbers are still being fetched, so each part holds
//! what can be shown at that point.

use crate::analytics::{ArbTypeStats, SlippageAnalysis, StrategyStats};
use crate::layout::{
    banner, banner_parts, closing, closing_parts, heading, heading_parts, row_text, section,
    section_parts, single_line, single_rule, spaced_closing, spaced_closing_parts,
};
use crate::ranking::{are_lowest, text_keys};
use crate::report::{
    arb_type_row, arb_type_row_columns, arb_type_table_head, arb_type_table_head_columns,
    best_rate_line, best_rate_line_parts, comparison_head, comparison_head_columns,
    comparison_row, comparison_row_columns, lowest_slippage_line, lowest_slippage_line_parts,
    moments_readable, order_strategies, report_title, report_title_parts, session_facts, session_facts_parts,
    session_row, session_row_columns,
    session_summary_lines, session_summary_lines_parts, session_table_head,
    session_table_head_columns, short_slippage_lines, short_slippage_lines_parts,
    short_strategy_head, short_strategy_head_columns, short_strategy_row,
    short_strategy_row_columns, short_summary_lines, short_summary_lines_parts, slippage_lines,
    slippage_lines_parts, strategy_ids, strategy_lines, strategy_lines_parts, strategy_row,
    strategy_row_columns, strategy_table_head, strategy_table_head_columns,
    top_opportunity_lines, top_opportunity_lines_parts, ComparisonTexts, StrategyRecord,
    SummaryTexts, TopOpportunity,
};
use crate::sessions::{are_most_recent, listed_sessions, SessionInfo};
use crate::text::{chain, concatenated, owned, texts};
use vstd::prelude::*;
use vstd::string::*;

verus! {

/// How many of the best opportunities are shown.
pub const TOP_LIMIT: usize = 10;

/// A strategy, with its numbers that are computed in doubles as texts.
#[derive(Debug)]
pub struct StrategyLine {
    pub stats: StrategyStats,
    /// The mean of the detected profits, in cents, with one decimal.
    pub avg_profit: String,
    /// The mean of the adjusted profits, in cents, with one decimal.
    pub avg_adjusted_profit: String,
    /// The expected profit, in cents, with one decimal.
    pub expected: String,
}

/// A kind of arbitrage, with its numbers that are computed in doubles as texts.
#[derive(Debug)]
pub struct ArbTypeLine {
    pub stats: ArbTypeStats,
    /// The mean of the detected profits, in cents, with one decimal.
    pub avg_profit: String,
    /// The mean fill probability, in percent, with one decimal.
    pub fill_percent: String,
    /// The expected profit, in cents, with one decimal.
    pub expected: String,
}

/// An opportunity, with its numbers that are computed in doubles as texts.
#[derive(Debug)]
pub struct TopLine {
    pub opp: TopOpportunity,
    /// The fill probability, in percent, without decimals.
    pub fill_percent: String,
    /// The expected profit, in cents, with one decimal.
    pub expected: String,
}

/// A strategy in the comparison of all.
#[derive(Debug)]
pub struct ComparisonLine {
    pub stats: StrategyStats,
    pub shown: ComparisonTexts,
}

/// A recommended strategy, with the number that speaks for it as a text.
#[derive(Debug)]
pub struct Recommended {
    pub strategy_id: String,
    pub value: String,
}

/// The parts of [`session_list_opening`].
pub open spec fn session_list_opening_parts() -> Seq<Seq<char>> {
    seq![
        concatenated(banner_parts("BACKTEST SESSIONS"@, 80)),
        row_text(session_table_head_columns()),
        single_rule(80),
    ]
}

/// The start of the list of sessions.
pub fn session_list_opening() -> (text: String)
    ensures
        text@ == concatenated(session_list_opening_parts()),
{
    let parts: Vec<String> = vec![
        banner("BACKTEST SESSIONS", 80),
        session_table_head(),
        single_line(80),
    ];
    assert(texts(parts@) =~= session_list_opening_parts());
    chain(&parts)
}

/// The lines of the sessions in `picked`.
pub open spec fn session_list_rows(
    sessions: Seq<SessionInfo>,
    picked: Seq<usize>,
) -> Seq<Seq<char>> {
    Seq::new(
        picked.len(),
        |k: int| row_text(session_row_columns(sessions[picked[k] as int])),
    )
}

/// The lines of all sessions, the one that started last first, and the end of the list.
pub fn session_list(sessions: &Vec<SessionInfo>) -> (text: String)
    requires
        forall|i: int| 0 <= i < sessions@.len() ==> moments_readable(#[trigger] sessions@[i]),
    ensures
        exists|picked: Seq<usize>| #[trigger]
            are_most_recent(sessions@, picked, sessions@.len()) && picked.len() == sessions@.len()
                && text@ == concatenated(session_list_rows(sessions@, picked)) + "\n"@,
{
    let listed: Vec<SessionInfo> = listed_sessions(sessions);
    let ghost picked = choose|picked: Seq<usize>|
        {
            &&& #[trigger] are_most_recent(sessions@, picked, sessions@.len())
            &&& listed@.len() == picked.len()
            &&& forall|k: int|
                0 <= k < listed@.len() ==> #[trigger] listed@[k] == sessions@[picked[k] as int]
        };
    let mut shown: Vec<String> = Vec::new();
    let mut k: usize = 0;
    while k < listed.len()
        invariant
            k <= listed@.len(),
            forall|i: int| 0 <= i < sessions@.len() ==> moments_readable(#[trigger] sessions@[i]),
            are_most_recent(sessions@, picked, sessions@.len()),
            listed@.len() == picked.len(),
            forall|j: int|
                0 <= j < listed@.len() ==> #[trigger] listed@[j] == sessions@[picked[j] as int],
            shown@.len() == k,
            forall|j: int|
                0 <= j < k ==> (#[trigger] shown@[j])@ == session_list_rows(sessions@, picked)[j],
        decreases listed@.len() - k,
    {
        assert(listed@[k as int] == sessions@[picked[k as int] as int]);
        assert(0 <= picked[k as int] < sessions@.len());
        shown.push(session_row(&listed[k]));
        k += 1;
    }
    assert(texts(shown@) =~= session_list_rows(sessions@, picked));
    let mut text: String = chain(&shown);
    text.append("\n");
    text
}

/// The parts of [`session_opening`].
pub open spec fn session_opening_parts(session_id: Seq<char>) -> Seq<Seq<char>> {
    seq![
        concatenated(banner_parts(concatenated(report_title_parts(session_id)), 80)),
    ]
}

/// The start of the report on a session.
pub fn session_opening(session_id: &str) -> (text: String)
    ensures
        text@ == concatenated(session_opening_parts(session_id@)),
{
    let title: String = report_title(session_id);
    let parts: Vec<String> = vec![
        banner(title.as_str(), 80),
    ];
    assert(texts(parts@) =~= session_opening_parts(session_id@));
    chain(&parts)
}

/// The parts of [`session_overview`].
pub open spec fn session_overview_parts(info: SessionInfo) -> Seq<Seq<char>> {
    seq![
        concatenated(session_facts_parts(info)),
        concatenated(section_parts("SUMMARY STATISTICS"@)),
    ]
}

/// What is known of a session, up to its summary.
pub fn session_overview(info: &SessionInfo) -> (text: String)
    ensures
        text@ == concatenated(session_overview_parts(*info)),
{
    let parts: Vec<String> = vec![
        session_facts(info),
        section("SUMMARY STATISTICS"),
    ];
    assert(texts(parts@) =~= session_overview_parts(*info));
    chain(&parts)
}

/// The parts of [`session_totals`].
pub open spec fn session_totals_parts(
    total: u32,
    confirmed: u32,
    slipped: u32,
    shown: SummaryTexts,
) -> Seq<Seq<char>> {
    seq![
        concatenated(session_summary_lines_parts(total, confirmed, slipped, shown)),
        concatenated(section_parts("STRATEGY BREAKDOWN"@)),
        row_text(strategy_table_head_columns()),
        single_rule(70),
    ]
}

/// The summary of a session, up to its strategies.
pub fn session_totals(
    total: u32,
    confirmed: u32,
    slipped: u32,
    shown: &SummaryTexts,
) -> (text: String)
    ensures
        text@ == concatenated(session_totals_parts(total, confirmed, slipped, *shown)),
{
    let parts: Vec<String> = vec![
        session_summary_lines(total, confirmed, slipped, shown),
        section("STRATEGY BREAKDOWN"),
        strategy_table_head(),
        single_line(70),
    ];
    assert(texts(parts@) =~= session_totals_parts(total, confirmed, slipped, *shown));
    chain(&parts)
}

/// What [`strategy_table`] shows, line by line.
pub open spec fn strategy_table_rows(lines: Seq<StrategyLine>) -> Seq<Seq<char>> {
    Seq::new(lines.len(), |i: int| row_text(
            strategy_row_columns(
                lines[i].stats,
                lines[i].avg_profit@,
                lines[i].avg_adjusted_profit@,
                lines[i].expected@,
            ),
        ))
}

/// The lines of the table of strategies.
pub fn strategy_table(lines: &Vec<StrategyLine>) -> (text: String)
    ensures
        text@ == concatenated(strategy_table_rows(lines@)),
{
    let mut shown: Vec<String> = Vec::new();
    let mut i: usize = 0;
    while i < lines.len()
        invariant
            i <= lines@.len(),
            shown@.len() == i,
            forall|j: int| 0 <= j < i ==> (#[trigger] shown@[j])@ == strategy_table_rows(lines@)[j],
        decreases lines@.len() - i,
    {
        shown.push(strategy_row(
            &lines[i].stats,
            lines[i].avg_profit.as_str(),
            lines[i].avg_adjusted_profit.as_str(),
            lines[i].expected.as_str(),
        ));
        i += 1;
    }
    assert(texts(shown@) =~= strategy_table_rows(lines@));
    chain(&shown)
}

/// The parts of [`session_strategies`].
pub open spec fn session_strategies_parts(lines: Seq<StrategyLine>) -> Seq<Seq<char>> {
    seq![
        concatenated(strategy_table_rows(lines)),
        concatenated(section_parts("SLIPPAGE ANALYSIS"@)),
    ]
}

/// The strategies of a session, up to its slippage.
pub fn session_strategies(lines: &Vec<StrategyLine>) -> (text: String)
    ensures
        text@ == concatenated(session_strategies_parts(lines@)),
{
    let parts: Vec<String> = vec![
        strategy_table(lines),
        section("SLIPPAGE ANALYSIS"),
    ];
    assert(texts(parts@) =~= session_strategies_parts(lines@));
    chain(&parts)
}

/// The parts of [`session_slippage`].
pub open spec fn session_slippage_parts(
    slipped: u32,
    analysis: SlippageAnalysis,
    avg_slippage: Seq<char>,
    avg_ticks: Seq<char>,
) -> Seq<Seq<char>> {
    seq![
        concatenated(slippage_lines_parts(slipped, analysis, avg_slippage, avg_ticks)),
        concatenated(section_parts("ARB TYPE BREAKDOWN"@)),
        row_text(arb_type_table_head_columns()),
        single_rule(60),
    ]
}

/// The slippage of a session, up to its kinds of arbitrage.
pub fn session_slippage(
    slipped: u32,
    analysis: &SlippageAnalysis,
    avg_slippage: &str,
    avg_ticks: &str,
) -> (text: String)
    ensures
        text@ == concatenated(session_slippage_parts(slipped, *analysis, avg_slippage@, avg_ticks@)),
{
    let parts: Vec<String> = vec![
        slippage_lines(slipped, analysis, avg_slippage, avg_ticks),
        section("ARB TYPE BREAKDOWN"),
        arb_type_table_head(),
        single_line(60),
    ];
    assert(texts(parts@) =~= session_slippage_parts(slipped, *analysis, avg_slippage@, avg_ticks@));
    chain(&parts)
}

/// What [`arb_type_table`] shows, line by line.
pub open spec fn arb_type_table_rows(lines: Seq<ArbTypeLine>) -> Seq<Seq<char>> {
    Seq::new(lines.len(), |i: int| row_text(
            arb_type_row_columns(
                lines[i].stats,
                lines[i].avg_profit@,
                lines[i].fill_percent@,
                lines[i].expected@,
            ),
        ))
}

/// The lines of the table of kinds of arbitrage.
pub fn arb_type_table(lines: &Vec<ArbTypeLine>) -> (text: String)
    ensures
        text@ == concatenated(arb_type_table_rows(lines@)),
{
    let mut shown: Vec<String> = Vec::new();
    let mut i: usize = 0;
    while i < lines.len()
        invariant
            i <= lines@.len(),
            shown@.len() == i,
            forall|j: int| 0 <= j < i ==> (#[trigger] shown@[j])@ == arb_type_table_rows(lines@)[j],
        decreases lines@.len() - i,
    {
        shown.push(arb_type_row(
            &lines[i].stats,
            lines[i].avg_profit.as_str(),
            lines[i].fill_percent.as_str(),
            lines[i].expected.as_str(),
        ));
        i += 1;
    }
    assert(texts(shown@) =~= arb_type_table_rows(lines@));
    chain(&shown)
}

/// The parts of [`session_arb_types`].
pub open spec fn session_arb_types_parts(lines: Seq<ArbTypeLine>) -> Seq<Seq<char>> {
    seq![
        concatenated(arb_type_table_rows(lines)),
        concatenated(section_parts("TOP 10 OPPORTUNITIES (by expected profit)"@)),
    ]
}

/// The kinds of arbitrage of a session, up to its best opportunities.
pub fn session_arb_types(lines: &Vec<ArbTypeLine>) -> (text: String)
    ensures
        text@ == concatenated(session_arb_types_parts(lines@)),
{
    let parts: Vec<String> = vec![
        arb_type_table(lines),
        section("TOP 10 OPPORTUNITIES (by expected profit)"),
    ];
    assert(texts(parts@) =~= session_arb_types_parts(lines@));
    chain(&parts)
}

/// What [`top_table`] shows, line by line.
pub open spec fn top_table_rows(lines: Seq<TopLine>) -> Seq<Seq<char>> {
    Seq::new(lines.len(), |i: int| concatenated(
            top_opportunity_lines_parts(lines[i].opp, lines[i].fill_percent@, lines[i].expected@),
        ))
}

/// The best opportunities.
pub fn top_table(lines: &Vec<TopLine>) -> (text: String)
    ensures
        text@ == concatenated(top_table_rows(lines@)),
{
    let mut shown: Vec<String> = Vec::new();
    let mut i: usize = 0;
    while i < lines.len()
        invariant
            i <= lines@.len(),
            shown@.len() == i,
            forall|j: int| 0 <= j < i ==> (#[trigger] shown@[j])@ == top_table_rows(lines@)[j],
        decreases lines@.len() - i,
    {
        shown.push(top_opportunity_lines(
            &lines[i].opp,
            lines[i].fill_percent.as_str(),
            lines[i].expected.as_str(),
        ));
        i += 1;
    }
    assert(texts(shown@) =~= top_table_rows(lines@));
    chain(&shown)
}

/// The parts of [`session_best`].
pub open spec fn session_best_parts(lines: Seq<TopLine>) -> Seq<Seq<char>> {
    seq![
        concatenated(top_table_rows(lines)),
        concatenated(closing_parts(80)),
    ]
}

/// The best opportunities of a session, and the end of its report.
pub fn session_best(lines: &Vec<TopLine>) -> (text: String)
    ensures
        text@ == concatenated(session_best_parts(lines@)),
{
    let parts: Vec<String> = vec![
        top_table(lines),
        closing(80),
    ];
    assert(texts(parts@) =~= session_best_parts(lines@));
    chain(&parts)
}

/// The parts of [`comparison_opening`].
pub open spec fn comparison_opening_parts() -> Seq<Seq<char>> {
    seq![
        concatenated(banner_parts("STRATEGY COMPARISON (ALL SESSIONS)"@, 80)),
        row_text(comparison_head_columns()),
        single_rule(85),
    ]
}

/// The start of the comparison of strategies.
pub fn comparison_opening() -> (text: String)
    ensures
        text@ == concatenated(comparison_opening_parts()),
{
    let parts: Vec<String> = vec![
        banner("STRATEGY COMPARISON (ALL SESSIONS)", 80),
        comparison_head(),
        single_line(85),
    ];
    assert(texts(parts@) =~= comparison_opening_parts());
    chain(&parts)
}

/// What [`comparison_table`] shows, line by line.
pub open spec fn comparison_table_rows(lines: Seq<ComparisonLine>) -> Seq<Seq<char>> {
    Seq::new(lines.len(), |i: int| row_text(comparison_row_columns(lines[i].stats, lines[i].shown)))
}

/// The lines of the comparison of strategies.
pub fn comparison_table(lines: &Vec<ComparisonLine>) -> (text: String)
    ensures
        text@ == concatenated(comparison_table_rows(lines@)),
{
    let mut shown: Vec<String> = Vec::new();
    let mut i: usize = 0;
    while i < lines.len()
        invariant
            i <= lines@.len(),
            shown@.len() == i,
            forall|j: int| 0 <= j < i ==> (#[trigger] shown@[j])@ == comparison_table_rows(lines@)[j],
        decreases lines@.len() - i,
    {
        shown.push(comparison_row(&lines[i].stats, &lines[i].shown));
        i += 1;
    }
    assert(texts(shown@) =~= comparison_table_rows(lines@));
    chain(&shown)
}

/// The parts of [`compared_strategies`].
pub open spec fn compared_strategies_parts(lines: Seq<ComparisonLine>) -> Seq<Seq<char>> {
    seq![
        concatenated(comparison_table_rows(lines)),
        concatenated(section_parts("RECOMMENDATIONS"@)),
    ]
}

/// The comparison of strategies, up to the recommendations.
pub fn compared_strategies(lines: &Vec<ComparisonLine>) -> (text: String)
    ensures
        text@ == concatenated(compared_strategies_parts(lines@)),
{
    let parts: Vec<String> = vec![
        comparison_table(lines),
        section("RECOMMENDATIONS"),
    ];
    assert(texts(parts@) =~= compared_strategies_parts(lines@));
    chain(&parts)
}

/// Who is recommended: nobody, with nothing to speak for them, where no strategy
/// comes into question.
pub open spec fn recommended_or_none(best: Option<Recommended>) -> (Seq<char>, Seq<char>) {
    match best {
        Some(r) => (r.strategy_id@, r.value@),
        None => ("N/A"@, "0.0"@),
    }
}

/// Who is recommended.
fn name_recommended(best: &Option<Recommended>) -> (named: (String, String))
    ensures
        (named.0@, named.1@) == recommended_or_none(*best),
{
    match best {
        Some(r) => (r.strategy_id.clone(), r.value.clone()),
        None => (owned("N/A"), owned("0.0")),
    }
}

/// The parts of [`recommendations`].
pub open spec fn recommendations_parts(
    rate: Option<Recommended>,
    slippage: Option<Recommended>,
) -> Seq<Seq<char>> {
    seq![
        concatenated(
            best_rate_line_parts(recommended_or_none(rate).0, recommended_or_none(rate).1),
        ),
        concatenated(
            lowest_slippage_line_parts(
                recommended_or_none(slippage).0,
                recommended_or_none(slippage).1,
            ),
        ),
        concatenated(spaced_closing_parts(80)),
    ]
}

/// The recommendations that not every comparison can give, and its end. The
/// rate is in percent, the slippage in cents, both with one decimal.
pub fn recommendations(rate: &Option<Recommended>, slippage: &Option<Recommended>) -> (text: String)
    ensures
        text@ == concatenated(recommendations_parts(*rate, *slippage)),
{
    let steadiest: (String, String) = name_recommended(rate);
    let calmest: (String, String) = name_recommended(slippage);
    let parts: Vec<String> = vec![
        best_rate_line(steadiest.0.as_str(), steadiest.1.as_str()),
        lowest_slippage_line(calmest.0.as_str(), calmest.1.as_str()),
        spaced_closing(80),
    ];
    assert(texts(parts@) =~= recommendations_parts(*rate, *slippage));
    chain(&parts)
}

/// The strategies in the order given, each as [`strategy_lines`] shows it.
pub open spec fn listed_strategies(
    strategies: Seq<StrategyRecord>,
    order: Seq<usize>,
) -> Seq<Seq<char>> {
    Seq::new(
        order.len(),
        |k: int| concatenated(strategy_lines_parts(strategies[order[k] as int])),
    )
}

/// The definitions of the strategies, by their identifiers, and the end of the list.
pub fn strategy_list(strategies: &Vec<StrategyRecord>) -> (text: String)
    ensures
        exists|order: Seq<usize>| #[trigger]
            are_lowest(
                text_keys(strategy_ids(strategies@), false),
                order,
                strategies@.len(),
            ) && text@ == concatenated(listed_strategies(strategies@, order)) + concatenated(
                closing_parts(80),
            ),
{
    let order: Vec<usize> = order_strategies(strategies);
    let mut shown: Vec<String> = Vec::new();
    let mut k: usize = 0;
    while k < order.len()
        invariant
            k <= order@.len(),
            are_lowest(
                text_keys(strategy_ids(strategies@), false),
                order@,
                strategies@.len(),
            ),
            text_keys(strategy_ids(strategies@), false).len() == strategies@.len(),
            shown@.len() == k,
            forall|j: int|
                0 <= j < k ==> (#[trigger] shown@[j])@ == listed_strategies(strategies@, order@)[j],
        decreases order@.len() - k,
    {
        shown.push(strategy_lines(&strategies[order[k]]));
        k += 1;
    }
    assert(texts(shown@) =~= listed_strategies(strategies@, order@));
    let mut text: String = chain(&shown);
    text.append(closing(80).as_str());
    text
}

/// The parts of [`short_opening`].
pub open spec fn short_opening_parts(session_id: Seq<char>) -> Seq<Seq<char>> {
    seq![
        concatenated(banner_parts(concatenated(report_title_parts(session_id)), 60)),
    ]
}

/// The start of the short report.
pub fn short_opening(session_id: &str) -> (text: String)
    ensures
        text@ == concatenated(short_opening_parts(session_id@)),
{
    let title: String = report_title(session_id);
    let parts: Vec<String> = vec![
        banner(title.as_str(), 60),
    ];
    assert(texts(parts@) =~= short_opening_parts(session_id@));
    chain(&parts)
}

/// The parts of [`short_totals`].
pub open spec fn short_totals_parts(
    total: u32,
    confirmed: u32,
    slipped: u32,
    shown: SummaryTexts,
) -> Seq<Seq<char>> {
    seq![
        concatenated(heading_parts("SESSION SUMMARY"@)),
        concatenated(short_summary_lines_parts(total, confirmed, slipped, shown)),
        "\n"@,
        concatenated(heading_parts("STRATEGY BREAKDOWN"@)),
    ]
}

/// The summary in the short report, up to the strategies.
pub fn short_totals(
    total: u32,
    confirmed: u32,
    slipped: u32,
    shown: &SummaryTexts,
) -> (text: String)
    ensures
        text@ == concatenated(short_totals_parts(total, confirmed, slipped, *shown)),
{
    let parts: Vec<String> = vec![
        heading("SESSION SUMMARY"),
        short_summary_lines(total, confirmed, slipped, shown),
        owned("\n"),
        heading("STRATEGY BREAKDOWN"),
    ];
    assert(texts(parts@) =~= short_totals_parts(total, confirmed, slipped, *shown));
    chain(&parts)
}

/// What [`short_strategy_table`] shows, line by line.
pub open spec fn short_strategy_table_rows(lines: Seq<StrategyLine>) -> Seq<Seq<char>> {
    Seq::new(lines.len(), |i: int| row_text(
            short_strategy_row_columns(lines[i].stats, lines[i].avg_profit@, lines[i].expected@),
        ))
}

/// The lines of the table of strategies in the short report.
pub fn short_strategy_table(lines: &Vec<StrategyLine>) -> (text: String)
    ensures
        text@ == concatenated(short_strategy_table_rows(lines@)),
{
    let mut shown: Vec<String> = Vec::new();
    let mut i: usize = 0;
    while i < lines.len()
        invariant
            i <= lines@.len(),
            shown@.len() == i,
            forall|j: int| 0 <= j < i ==> (#[trigger] shown@[j])@ == short_strategy_table_rows(lines@)[j],
        decreases lines@.len() - i,
    {
        shown.push(short_strategy_row(
            &lines[i].stats,
            lines[i].avg_profit.as_str(),
            lines[i].expected.as_str(),
        ));
        i += 1;
    }
    assert(texts(shown@) =~= short_strategy_table_rows(lines@));
    chain(&shown)
}

/// The parts of [`short_strategies`].
pub open spec fn short_strategies_parts(lines: Seq<StrategyLine>) -> Seq<Seq<char>> {
    seq![
        row_text(short_strategy_head_columns()),
        concatenated(short_strategy_table_rows(lines)),
    ]
}

/// The strategies in the short report.
pub fn short_strategies(lines: &Vec<StrategyLine>) -> (text: String)
    ensures
        text@ == concatenated(short_strategies_parts(lines@)),
{
    let parts: Vec<String> = vec![
        short_strategy_head(),
        short_strategy_table(lines),
    ];
    assert(texts(parts@) =~= short_strategies_parts(lines@));
    chain(&parts)
}

/// The parts of [`short_slippage`].
pub open spec fn short_slippage_parts(
    analysis: SlippageAnalysis,
    avg_slippage: Seq<char>,
    avg_ticks: Seq<char>,
) -> Seq<Seq<char>> {
    seq![
        "\n"@,
        concatenated(heading_parts("SLIPPAGE ANALYSIS"@)),
        concatenated(short_slippage_lines_parts(analysis, avg_slippage, avg_ticks)),
    ]
}

/// The slippage in the short report.
pub fn short_slippage(
    analysis: &SlippageAnalysis,
    avg_slippage: &str,
    avg_ticks: &str,
) -> (text: String)
    ensures
        text@ == concatenated(short_slippage_parts(*analysis, avg_slippage@, avg_ticks@)),
{
    let parts: Vec<String> = vec![
        owned("\n"),
        heading("SLIPPAGE ANALYSIS"),
        short_slippage_lines(analysis, avg_slippage, avg_ticks),
    ];
    assert(texts(parts@) =~= short_slippage_parts(*analysis, avg_slippage@, avg_ticks@));
    chain(&parts)
}

} // verus!
