//! What the pages of the reports are made of, and in what order.

use crate::analytics::SlippageAnalysis;
use crate::collector::{BestQuote, CostBucket, NearArb};
use crate::layout::{
    banner_parts, closing_parts, heading_parts, row_text, section_parts, spaced_closing_parts,
};
use crate::pages::{
    arb_type_table_rows, compared_strategies_parts, comparison_opening_parts,
    comparison_table_rows, session_arb_types_parts, session_best_parts,
    session_list_opening_parts, session_opening_parts, session_overview_parts,
    session_slippage_parts, session_strategies_parts, session_totals_parts, short_opening_parts,
    short_slippage_parts, short_strategies_parts, short_strategy_table_rows, short_totals_parts,
    strategy_table_rows, top_table_rows, ArbTypeLine, ComparisonLine, StrategyLine, TopLine,
};
use crate::report::{
    arb_type_row_columns, arb_type_table_head_columns, comparison_head_columns,
    comparison_row_columns, session_facts_parts, session_summary_lines_parts,
    session_table_head_columns, short_slippage_lines_parts, short_strategy_head_columns,
    short_strategy_row_columns, short_summary_lines_parts, slippage_lines_parts,
    strategy_row_columns, strategy_table_head_columns, top_opportunity_lines_parts, SummaryTexts,
};
use crate::report_laws::reports_are_titled_with_the_session;
use crate::sessions::SessionInfo;
use crate::snapshot_report::{
    analysis_best_parts, analysis_distribution_parts, analysis_opening_parts,
    analysis_overview_parts, best_quote_head_columns, best_quote_row_columns,
    best_quote_table_rows, bucket_row_columns, bucket_table_rows,
    moment_lines_parts, near_arb_line_parts, near_arb_list_text, near_arb_table_rows,
};
use crate::text::{chained_parts_stand_in_order, concatenated};
use vstd::prelude::*;

verus! {

/// A line of one character, `n` times.
pub open spec fn line_of(c: char, n: nat) -> Seq<char> {
    Seq::new(n, |i: int| c) + "\n"@
}

/// A title between two rules of forty hyphens, after an empty line.
pub open spec fn section_shown(title: Seq<char>) -> Seq<char> {
    "\n"@ + line_of('-', 40) + title + "\n"@ + line_of('-', 40)
}

/// A title above a rule of forty hyphens.
pub open spec fn heading_shown(title: Seq<char>) -> Seq<char> {
    title + "\n"@ + line_of('-', 40)
}

/// A title between two rules of equals signs, between empty lines.
pub open spec fn banner_shown(title: Seq<char>, width: nat) -> Seq<char> {
    "\n"@ + line_of('=', width) + title + "\n"@ + line_of('=', width) + "\n"@
}

/// A section is its title between two rules of forty hyphens.
pub proof fn sections_stand_between_rules(title: Seq<char>)
    ensures
        concatenated(section_parts(title)) == section_shown(title),
{
    reveal_with_fuel(concatenated, 6);
    let parts = section_parts(title);
    assert(concatenated(parts) =~= parts[0] + parts[1] + parts[2] + parts[3] + parts[4]);
    assert(parts[1] =~= line_of('-', 40));
}

/// A heading is its title above a rule of forty hyphens.
pub proof fn headings_stand_above_a_rule(title: Seq<char>)
    ensures
        concatenated(heading_parts(title)) == heading_shown(title),
{
    reveal_with_fuel(concatenated, 4);
    let parts = heading_parts(title);
    assert(concatenated(parts) =~= parts[0] + parts[1] + parts[2]);
    assert(parts[2] =~= line_of('-', 40));
}

/// A banner is its title between two rules of equals signs.
pub proof fn banners_stand_between_rules(title: Seq<char>, width: usize)
    ensures
        concatenated(banner_parts(title, width)) == banner_shown(title, width as nat),
{
    reveal_with_fuel(concatenated, 7);
    let parts = banner_parts(title, width);
    assert(concatenated(parts) =~= parts[0] + parts[1] + parts[2] + parts[3] + parts[4] + parts[5]);
    assert(parts[1] =~= line_of('=', width as nat));
}

/// A report ends with a rule of equals signs and an empty line.
pub proof fn reports_close_with_a_rule(width: usize)
    ensures
        concatenated(closing_parts(width)) == line_of('=', width as nat) + "\n"@,
{
    reveal_with_fuel(concatenated, 3);
    let parts = closing_parts(width);
    assert(concatenated(parts) =~= parts[0] + parts[1]);
    assert(parts[0] =~= line_of('=', width as nat));
}

/// A report ends with a rule of equals signs between empty lines.
pub proof fn reports_close_with_a_spaced_rule(width: usize)
    ensures
        concatenated(spaced_closing_parts(width)) == "\n"@ + line_of('=', width as nat) + "\n"@,
{
    reveal_with_fuel(concatenated, 4);
    let parts = spaced_closing_parts(width);
    assert(concatenated(parts) =~= parts[0] + parts[1] + parts[2]);
    assert(parts[1] =~= line_of('=', width as nat));
}

/// The list of sessions opens with its title and the names of its columns.
pub proof fn session_list_opens_with()
    ensures
        concatenated(session_list_opening_parts()) == banner_shown("BACKTEST SESSIONS"@, 80)
            + row_text(session_table_head_columns())
            + line_of('-', 80),
{
    let parts = session_list_opening_parts();
    reveal_with_fuel(concatenated, 4);
    banners_stand_between_rules("BACKTEST SESSIONS"@, 80);
    assert(concatenated(parts) =~= parts[0] + parts[1] + parts[2]);
    assert(concatenated(parts) =~= banner_shown("BACKTEST SESSIONS"@, 80)
        + row_text(session_table_head_columns())
        + line_of('-', 80));
}

/// The report on a session opens with its identifier.
pub proof fn session_report_opens_with(session_id: Seq<char>)
    ensures
        concatenated(session_opening_parts(session_id))
            == banner_shown("BACKTEST REPORT: "@ + session_id, 80),
{
    let parts = session_opening_parts(session_id);
    reveal_with_fuel(concatenated, 2);
    banners_stand_between_rules("BACKTEST REPORT: "@ + session_id, 80);
    reports_are_titled_with_the_session(session_id);
    assert(concatenated(parts) =~= parts[0]);
    assert(concatenated(parts) =~= banner_shown("BACKTEST REPORT: "@ + session_id, 80));
}

/// What is known of a session leads to its summary.
pub proof fn session_overview_leads_to_the_summary(info: SessionInfo)
    ensures
        concatenated(session_overview_parts(info)) == concatenated(session_facts_parts(info))
            + section_shown("SUMMARY STATISTICS"@),
{
    let parts = session_overview_parts(info);
    reveal_with_fuel(concatenated, 3);
    sections_stand_between_rules("SUMMARY STATISTICS"@);
    assert(concatenated(parts) =~= parts[0] + parts[1]);
    assert(concatenated(parts) =~= concatenated(session_facts_parts(info))
        + section_shown("SUMMARY STATISTICS"@));
}

/// The summary of a session leads to its strategies.
pub proof fn session_totals_lead_to_the_strategies(
    total: u32,
    confirmed: u32,
    slipped: u32,
    shown: SummaryTexts,
)
    ensures
        concatenated(session_totals_parts(total, confirmed, slipped, shown))
            == concatenated(session_summary_lines_parts(total, confirmed, slipped, shown))
            + section_shown("STRATEGY BREAKDOWN"@)
            + row_text(strategy_table_head_columns())
            + line_of('-', 70),
{
    let parts = session_totals_parts(total, confirmed, slipped, shown);
    reveal_with_fuel(concatenated, 5);
    sections_stand_between_rules("STRATEGY BREAKDOWN"@);
    assert(concatenated(parts) =~= parts[0] + parts[1] + parts[2] + parts[3]);
    assert(concatenated(parts)
        =~= concatenated(session_summary_lines_parts(total, confirmed, slipped, shown))
        + section_shown("STRATEGY BREAKDOWN"@)
        + row_text(strategy_table_head_columns())
        + line_of('-', 70));
}

/// The strategies of a session lead to its slippage.
pub proof fn session_strategies_lead_to_the_slippage(lines: Seq<StrategyLine>)
    ensures
        concatenated(session_strategies_parts(lines)) == concatenated(strategy_table_rows(lines))
            + section_shown("SLIPPAGE ANALYSIS"@),
{
    let parts = session_strategies_parts(lines);
    reveal_with_fuel(concatenated, 3);
    sections_stand_between_rules("SLIPPAGE ANALYSIS"@);
    assert(concatenated(parts) =~= parts[0] + parts[1]);
    assert(concatenated(parts) =~= concatenated(strategy_table_rows(lines))
        + section_shown("SLIPPAGE ANALYSIS"@));
}

/// The slippage of a session leads to its kinds of arbitrage.
pub proof fn session_slippage_leads_to_the_kinds(
    slipped: u32,
    analysis: SlippageAnalysis,
    avg_slippage: Seq<char>,
    avg_ticks: Seq<char>,
)
    ensures
        concatenated(session_slippage_parts(slipped, analysis, avg_slippage, avg_ticks))
            == concatenated(slippage_lines_parts(slipped, analysis, avg_slippage, avg_ticks))
            + section_shown("ARB TYPE BREAKDOWN"@)
            + row_text(arb_type_table_head_columns())
            + line_of('-', 60),
{
    let parts = session_slippage_parts(slipped, analysis, avg_slippage, avg_ticks);
    reveal_with_fuel(concatenated, 5);
    sections_stand_between_rules("ARB TYPE BREAKDOWN"@);
    assert(concatenated(parts) =~= parts[0] + parts[1] + parts[2] + parts[3]);
    assert(concatenated(parts)
        =~= concatenated(slippage_lines_parts(slipped, analysis, avg_slippage, avg_ticks))
        + section_shown("ARB TYPE BREAKDOWN"@)
        + row_text(arb_type_table_head_columns())
        + line_of('-', 60));
}

/// The kinds of arbitrage of a session lead to its best opportunities.
pub proof fn session_kinds_lead_to_the_best(lines: Seq<ArbTypeLine>)
    ensures
        concatenated(session_arb_types_parts(lines)) == concatenated(arb_type_table_rows(lines))
            + section_shown("TOP 10 OPPORTUNITIES (by expected profit)"@),
{
    let parts = session_arb_types_parts(lines);
    reveal_with_fuel(concatenated, 3);
    sections_stand_between_rules("TOP 10 OPPORTUNITIES (by expected profit)"@);
    assert(concatenated(parts) =~= parts[0] + parts[1]);
    assert(concatenated(parts) =~= concatenated(arb_type_table_rows(lines))
        + section_shown("TOP 10 OPPORTUNITIES (by expected profit)"@));
}

/// The best opportunities close the report on a session.
pub proof fn session_report_closes_with_the_best(lines: Seq<TopLine>)
    ensures
        concatenated(session_best_parts(lines)) == concatenated(top_table_rows(lines))
            + (line_of('=', 80) + "\n"@),
{
    let parts = session_best_parts(lines);
    reveal_with_fuel(concatenated, 3);
    reports_close_with_a_rule(80);
    assert(concatenated(parts) =~= parts[0] + parts[1]);
    assert(concatenated(parts) =~= concatenated(top_table_rows(lines))
        + (line_of('=', 80) + "\n"@));
}

/// The comparison of strategies opens with its title and the names of its columns.
pub proof fn comparison_opens_with()
    ensures
        concatenated(comparison_opening_parts())
            == banner_shown("STRATEGY COMPARISON (ALL SESSIONS)"@, 80)
            + row_text(comparison_head_columns())
            + line_of('-', 85),
{
    let parts = comparison_opening_parts();
    reveal_with_fuel(concatenated, 4);
    banners_stand_between_rules("STRATEGY COMPARISON (ALL SESSIONS)"@, 80);
    assert(concatenated(parts) =~= parts[0] + parts[1] + parts[2]);
    assert(concatenated(parts) =~= banner_shown("STRATEGY COMPARISON (ALL SESSIONS)"@, 80)
        + row_text(comparison_head_columns())
        + line_of('-', 85));
}

/// The comparison of strategies leads to the recommendations.
pub proof fn comparison_leads_to_the_recommendations(lines: Seq<ComparisonLine>)
    ensures
        concatenated(compared_strategies_parts(lines)) == concatenated(comparison_table_rows(lines))
            + section_shown("RECOMMENDATIONS"@),
{
    let parts = compared_strategies_parts(lines);
    reveal_with_fuel(concatenated, 3);
    sections_stand_between_rules("RECOMMENDATIONS"@);
    assert(concatenated(parts) =~= parts[0] + parts[1]);
    assert(concatenated(parts) =~= concatenated(comparison_table_rows(lines))
        + section_shown("RECOMMENDATIONS"@));
}

/// The short report opens with the identifier of its session.
pub proof fn short_report_opens_with(session_id: Seq<char>)
    ensures
        concatenated(short_opening_parts(session_id))
            == banner_shown("BACKTEST REPORT: "@ + session_id, 60),
{
    let parts = short_opening_parts(session_id);
    reveal_with_fuel(concatenated, 2);
    banners_stand_between_rules("BACKTEST REPORT: "@ + session_id, 60);
    reports_are_titled_with_the_session(session_id);
    assert(concatenated(parts) =~= parts[0]);
    assert(concatenated(parts) =~= banner_shown("BACKTEST REPORT: "@ + session_id, 60));
}

/// The summary of the short report leads to the strategies.
pub proof fn short_totals_lead_to_the_strategies(
    total: u32,
    confirmed: u32,
    slipped: u32,
    shown: SummaryTexts,
)
    ensures
        concatenated(short_totals_parts(total, confirmed, slipped, shown))
            == heading_shown("SESSION SUMMARY"@)
            + concatenated(short_summary_lines_parts(total, confirmed, slipped, shown))
            + "\n"@
            + heading_shown("STRATEGY BREAKDOWN"@),
{
    let parts = short_totals_parts(total, confirmed, slipped, shown);
    reveal_with_fuel(concatenated, 5);
    headings_stand_above_a_rule("SESSION SUMMARY"@);
    headings_stand_above_a_rule("STRATEGY BREAKDOWN"@);
    assert(concatenated(parts) =~= parts[0] + parts[1] + parts[2] + parts[3]);
    assert(concatenated(parts) =~= heading_shown("SESSION SUMMARY"@)
        + concatenated(short_summary_lines_parts(total, confirmed, slipped, shown))
        + "\n"@
        + heading_shown("STRATEGY BREAKDOWN"@));
}

/// The strategies of the short report stand below their head.
pub proof fn short_strategies_follow_their_head(lines: Seq<StrategyLine>)
    ensures
        concatenated(short_strategies_parts(lines)) == row_text(short_strategy_head_columns())
            + concatenated(short_strategy_table_rows(lines)),
{
    let parts = short_strategies_parts(lines);
    reveal_with_fuel(concatenated, 3);
    assert(concatenated(parts) =~= parts[0] + parts[1]);
    assert(concatenated(parts) =~= row_text(short_strategy_head_columns())
        + concatenated(short_strategy_table_rows(lines)));
}

/// The slippage of the short report stands below its heading.
pub proof fn short_slippage_has_its_heading(
    analysis: SlippageAnalysis,
    avg_slippage: Seq<char>,
    avg_ticks: Seq<char>,
)
    ensures
        concatenated(short_slippage_parts(analysis, avg_slippage, avg_ticks)) == "\n"@
            + heading_shown("SLIPPAGE ANALYSIS"@)
            + concatenated(short_slippage_lines_parts(analysis, avg_slippage, avg_ticks)),
{
    let parts = short_slippage_parts(analysis, avg_slippage, avg_ticks);
    reveal_with_fuel(concatenated, 4);
    headings_stand_above_a_rule("SLIPPAGE ANALYSIS"@);
    assert(concatenated(parts) =~= parts[0] + parts[1] + parts[2]);
    assert(concatenated(parts) =~= "\n"@
        + heading_shown("SLIPPAGE ANALYSIS"@)
        + concatenated(short_slippage_lines_parts(analysis, avg_slippage, avg_ticks)));
}

/// The analysis opens with its title.
pub proof fn analysis_opens_with()
    ensures
        concatenated(analysis_opening_parts()) == banner_shown("PRICE SNAPSHOT ANALYSIS"@, 60),
{
    let parts = analysis_opening_parts();
    reveal_with_fuel(concatenated, 2);
    banners_stand_between_rules("PRICE SNAPSHOT ANALYSIS"@, 60);
    assert(concatenated(parts) =~= parts[0]);
    assert(concatenated(parts) =~= banner_shown("PRICE SNAPSHOT ANALYSIS"@, 60));
}

/// How much was collected leads to the best quotes.
pub proof fn analysis_overview_leads_to_the_best(kalshi: usize, polymarket: usize)
    ensures
        concatenated(analysis_overview_parts(kalshi, polymarket))
            == concatenated(moment_lines_parts(kalshi, polymarket))
            + section_shown("BEST HISTORICAL OPPORTUNITIES"@),
{
    let parts = analysis_overview_parts(kalshi, polymarket);
    reveal_with_fuel(concatenated, 3);
    sections_stand_between_rules("BEST HISTORICAL OPPORTUNITIES"@);
    assert(concatenated(parts) =~= parts[0] + parts[1]);
    assert(concatenated(parts) =~= concatenated(moment_lines_parts(kalshi, polymarket))
        + section_shown("BEST HISTORICAL OPPORTUNITIES"@));
}

/// The best quotes stand below their head, and lead to the distribution of prices.
pub proof fn analysis_best_leads_to_the_distribution(quotes: Seq<BestQuote>)
    ensures
        concatenated(analysis_best_parts(quotes)) == row_text(best_quote_head_columns())
            + concatenated(best_quote_table_rows(quotes))
            + section_shown("PRICE DISTRIBUTION (Kalshi)"@),
{
    let parts = analysis_best_parts(quotes);
    reveal_with_fuel(concatenated, 4);
    sections_stand_between_rules("PRICE DISTRIBUTION (Kalshi)"@);
    assert(concatenated(parts) =~= parts[0] + parts[1] + parts[2]);
    assert(concatenated(parts) =~= row_text(best_quote_head_columns())
        + concatenated(best_quote_table_rows(quotes))
        + section_shown("PRICE DISTRIBUTION (Kalshi)"@));
}

/// The distribution of prices closes the analysis.
pub proof fn analysis_closes_with_the_distribution(buckets: Seq<(CostBucket, u64)>)
    ensures
        concatenated(analysis_distribution_parts(buckets))
            == concatenated(bucket_table_rows(buckets))
            + ("\n"@ + line_of('=', 60) + "\n"@),
{
    let parts = analysis_distribution_parts(buckets);
    reveal_with_fuel(concatenated, 3);
    reports_close_with_a_spaced_rule(60);
    assert(concatenated(parts) =~= parts[0] + parts[1]);
    assert(concatenated(parts) =~= concatenated(bucket_table_rows(buckets))
        + ("\n"@ + line_of('=', 60) + "\n"@));
}

/// The near arbitrages stand below their head, and nothing is shown where there are none.
pub proof fn near_arbs_stand_below_their_head(arbs: Seq<NearArb>, i: int)
    requires
        0 <= i < arbs.len(),
    ensures
        near_arb_list_text(Seq::empty()).len() == 0,
        near_arb_table_rows(arbs).len() == arbs.len(),
        near_arb_table_rows(arbs)[i] == concatenated(near_arb_line_parts(arbs[i])),
        near_arb_list_text(arbs) == "\n📊 Near-arbitrage opportunities found:\n"@ + concatenated(
            near_arb_table_rows(arbs).take(i),
        ) + near_arb_table_rows(arbs)[i] + concatenated(near_arb_table_rows(arbs).skip(i + 1)),
{
    let head = crate::snapshot_report::near_arbs_head_parts();
    reveal_with_fuel(concatenated, 2);
    assert(head.drop_last() =~= Seq::<Seq<char>>::empty());
    assert(concatenated(head) =~= head[0]);
    chained_parts_stand_in_order(near_arb_table_rows(arbs), i);
    assert(near_arb_list_text(arbs) =~= "\n📊 Near-arbitrage opportunities found:\n"@
        + concatenated(near_arb_table_rows(arbs).take(i)) + near_arb_table_rows(arbs)[i]
        + concatenated(near_arb_table_rows(arbs).skip(i + 1)));
}

/// Each strategy has its row, with its own numbers, in the order given.
pub proof fn strategy_rows_stand_in_order(lines: Seq<StrategyLine>, i: int)
    requires
        0 <= i < lines.len(),
    ensures
        strategy_table_rows(lines).len() == lines.len(),
        strategy_table_rows(lines)[i] == row_text(
            strategy_row_columns(
                lines[i].stats,
                lines[i].avg_profit@,
                lines[i].avg_adjusted_profit@,
                lines[i].expected@,
            ),
        ),
        concatenated(strategy_table_rows(lines))
            == concatenated(strategy_table_rows(lines).take(i)) + strategy_table_rows(lines)[i]
            + concatenated(strategy_table_rows(lines).skip(i + 1)),
{
    chained_parts_stand_in_order(strategy_table_rows(lines), i);
}

/// Each strategy has its row in the short report, with its own numbers, in the order
/// given.
pub proof fn short_strategy_rows_stand_in_order(lines: Seq<StrategyLine>, i: int)
    requires
        0 <= i < lines.len(),
    ensures
        short_strategy_table_rows(lines).len() == lines.len(),
        short_strategy_table_rows(lines)[i] == row_text(
            short_strategy_row_columns(lines[i].stats, lines[i].avg_profit@, lines[i].expected@),
        ),
        concatenated(short_strategy_table_rows(lines))
            == concatenated(short_strategy_table_rows(lines).take(i)) + short_strategy_table_rows(lines)[i]
            + concatenated(short_strategy_table_rows(lines).skip(i + 1)),
{
    chained_parts_stand_in_order(short_strategy_table_rows(lines), i);
}

/// Each kind of arbitrage has its row, with its own numbers, in the order given.
pub proof fn kind_rows_stand_in_order(lines: Seq<ArbTypeLine>, i: int)
    requires
        0 <= i < lines.len(),
    ensures
        arb_type_table_rows(lines).len() == lines.len(),
        arb_type_table_rows(lines)[i] == row_text(
            arb_type_row_columns(
                lines[i].stats,
                lines[i].avg_profit@,
                lines[i].fill_percent@,
                lines[i].expected@,
            ),
        ),
        concatenated(arb_type_table_rows(lines))
            == concatenated(arb_type_table_rows(lines).take(i)) + arb_type_table_rows(lines)[i]
            + concatenated(arb_type_table_rows(lines).skip(i + 1)),
{
    chained_parts_stand_in_order(arb_type_table_rows(lines), i);
}

/// Each strategy has its row in the comparison, with its own numbers, in the order
/// given.
pub proof fn comparison_rows_stand_in_order(lines: Seq<ComparisonLine>, i: int)
    requires
        0 <= i < lines.len(),
    ensures
        comparison_table_rows(lines).len() == lines.len(),
        comparison_table_rows(lines)[i] == row_text(
            comparison_row_columns(lines[i].stats, lines[i].shown),
        ),
        concatenated(comparison_table_rows(lines))
            == concatenated(comparison_table_rows(lines).take(i)) + comparison_table_rows(lines)[i]
            + concatenated(comparison_table_rows(lines).skip(i + 1)),
{
    chained_parts_stand_in_order(comparison_table_rows(lines), i);
}

/// Each of the best opportunities has its lines, with its own numbers, in the order
/// given.
pub proof fn best_opportunities_stand_in_order(lines: Seq<TopLine>, i: int)
    requires
        0 <= i < lines.len(),
    ensures
        top_table_rows(lines).len() == lines.len(),
        top_table_rows(lines)[i] == concatenated(
            top_opportunity_lines_parts(lines[i].opp, lines[i].fill_percent@, lines[i].expected@),
        ),
        concatenated(top_table_rows(lines))
            == concatenated(top_table_rows(lines).take(i)) + top_table_rows(lines)[i]
            + concatenated(top_table_rows(lines).skip(i + 1)),
{
    chained_parts_stand_in_order(top_table_rows(lines), i);
}

/// Each of the best quotes has its row, in the order given.
pub proof fn best_quotes_stand_in_order(quotes: Seq<BestQuote>, i: int)
    requires
        0 <= i < quotes.len(),
    ensures
        best_quote_table_rows(quotes).len() == quotes.len(),
        best_quote_table_rows(quotes)[i] == row_text(best_quote_row_columns(quotes[i])),
        concatenated(best_quote_table_rows(quotes))
            == concatenated(best_quote_table_rows(quotes).take(i)) + best_quote_table_rows(quotes)[i]
            + concatenated(best_quote_table_rows(quotes).skip(i + 1)),
{
    chained_parts_stand_in_order(best_quote_table_rows(quotes), i);
}

/// Each bucket has its row, with its own count, in the order given.
pub proof fn buckets_stand_in_order(buckets: Seq<(CostBucket, u64)>, i: int)
    requires
        0 <= i < buckets.len(),
    ensures
        bucket_table_rows(buckets).len() == buckets.len(),
        bucket_table_rows(buckets)[i] == row_text(
            bucket_row_columns(buckets[i].0, buckets[i].1),
        ),
        concatenated(bucket_table_rows(buckets))
            == concatenated(bucket_table_rows(buckets).take(i)) + bucket_table_rows(buckets)[i]
            + concatenated(bucket_table_rows(buckets).skip(i + 1)),
{
    chained_parts_stand_in_order(bucket_table_rows(buckets), i);
}

/// Ten of the best opportunities are shown.
pub proof fn ten_of_the_best_are_shown()
    ensures
        crate::pages::TOP_LIMIT == 10,
{
}

} // verus!
