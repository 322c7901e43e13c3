//! What the reports show where: each number behind its own label, and each value in its
//! own column.

use crate::analytics::{ArbTypeStats, SlippageAnalysis, StrategyStats};
use crate::collector::{BestQuote, CostBucket, NearArb};
use crate::layout::{column_text, row_text, Column};
use crate::pages::{recommendations_parts, Recommended};
use crate::ranking::{are_lowest, text_before, text_keys, texts_are_picked_in_order};
use crate::report::{
    arb_type_row_columns, arb_type_table_head_columns, best_profit_line_parts,
    best_rate_line_parts, comparison_head_columns, comparison_row_columns,
    lowest_slippage_line_parts, moments_readable, report_title_parts, running_time,
    session_facts_parts, session_row_columns, session_summary_lines_parts,
    session_table_head_columns, short_slippage_lines_parts, short_strategy_head_columns,
    short_strategy_row_columns, short_summary_lines_parts, slippage_lines_parts, strategy_ids,
    strategy_lines_parts, strategy_row_columns, strategy_table_head_columns,
    top_opportunity_lines_parts, ComparisonTexts, StrategyRecord, SummaryTexts, TopOpportunity,
};
use crate::sessions::SessionInfo;
use crate::snapshot_report::{
    best_quote_head_columns, best_quote_row_columns, bucket_row_columns, collected_line_parts,
    fetch_failed_line_parts, moment_lines_parts, near_arb_line_parts, venue_line_parts,
};
use crate::text::{
    ascii_slices_are_characters, byte_slice, chained_parts_stand_in_order, columns_hold_their_text,
    concatenated, decimal, first_chars, joined, signed_decimal,
};
use vstd::prelude::*;
use vstd::utf8::is_ascii_chars;

verus! {

/// Whether a text is made of these five, one after another.
pub open spec fn is_made_of(
    text: Seq<char>,
    front: Seq<char>,
    label: Seq<char>,
    value: Seq<char>,
    next: Seq<char>,
    back: Seq<char>,
) -> bool {
    text == front + label + value + next + back
}

/// Whether a value stands in a text directly behind a label, and directly before what
/// comes next.
pub open spec fn follows(
    text: Seq<char>,
    label: Seq<char>,
    value: Seq<char>,
    next: Seq<char>,
) -> bool {
    exists|front: Seq<char>, back: Seq<char>| #[trigger]
        is_made_of(text, front, label, value, next, back)
}

/// Three neighbours among chained parts stand next to each other.
proof fn lemma_follows(parts: Seq<Seq<char>>, i: int)
    requires
        0 <= i,
        i + 2 < parts.len(),
    ensures
        follows(concatenated(parts), parts[i], parts[i + 1], parts[i + 2]),
{
    let front = concatenated(parts.take(i));
    let rest = parts.skip(i + 1);
    let after = rest.skip(1);
    let back = concatenated(after.skip(1));
    chained_parts_stand_in_order(parts, i);
    chained_parts_stand_in_order(rest, 0);
    chained_parts_stand_in_order(after, 0);
    assert(rest.take(0) =~= Seq::<Seq<char>>::empty());
    assert(after.take(0) =~= Seq::<Seq<char>>::empty());
    assert(rest[0] == parts[i + 1]);
    assert(after[0] == parts[i + 2]);
    assert(concatenated(after) =~= parts[i + 2] + back);
    assert(concatenated(rest) =~= parts[i + 1] + parts[i + 2] + back);
    assert(concatenated(parts) =~= front + parts[i] + parts[i + 1] + parts[i + 2] + back);
    assert(is_made_of(
        concatenated(parts),
        front,
        parts[i],
        parts[i + 1],
        parts[i + 2],
        back,
    ));
}

/// What is cut to a length is its front.
proof fn lemma_cut(s: Seq<char>, n: nat)
    ensures
        first_chars(s, n) == s.take(
            if s.len() < n {
                s.len() as int
            } else {
                n as int
            },
        ),
{
    assert(s.take(s.len() as int) =~= s);
}

/// Whether a text stands in a line at a place.
pub open spec fn stands_at(line: Seq<char>, place: int, text: Seq<char>) -> bool {
    &&& 0 <= place
    &&& place + text.len() <= line.len()
    &&& line.subrange(place, place + text.len()) == text
}

/// How many characters a text takes in a column: as many as the column is wide, or as
/// many as it has where it is longer.
pub open spec fn wide(text: Seq<char>, width: nat) -> nat {
    if text.len() < width {
        width
    } else {
        text.len()
    }
}

/// Where a column starts: behind the columns before it and a space after each.
pub open spec fn column_place(columns: Seq<Column>, i: int) -> nat
    decreases i,
{
    if i <= 0 {
        0
    } else {
        column_place(columns, i - 1) + wide(columns[i - 1].text, columns[i - 1].width)
            + columns[i - 1].unit.len() + 1
    }
}

/// What the columns of a line show.
spec fn shown(columns: Seq<Column>) -> Seq<Seq<char>> {
    Seq::new(columns.len(), |i: int| column_text(columns[i]))
}

/// A column takes its width and its unit.
proof fn lemma_column_length(column: Column)
    ensures
        column_text(column).len() == wide(column.text, column.width) + column.unit.len(),
{
    columns_hold_their_text(column.text, column.width);
}

/// The columns that are joined are as long as they and the spaces between them.
proof fn lemma_joined_length(columns: Seq<Column>)
    requires
        columns.len() > 0,
    ensures
        joined(shown(columns), " "@).len() + 1 == column_place(columns, columns.len() as int),
    decreases columns.len(),
{
    reveal_strlit(" ");
    let last = columns[columns.len() - 1];
    lemma_column_length(last);
    assert(shown(columns).last() == column_text(last));
    if columns.len() > 1 {
        let rest = columns.drop_last();
        lemma_joined_length(rest);
        assert(shown(columns).drop_last() =~= shown(rest));
        lemma_same_places(columns, rest, rest.len() as int);
    } else {
        reveal_with_fuel(column_place, 2);
        assert(shown(columns)[0] == column_text(last));
    }
}

/// Where a column starts depends on the columns before it.
proof fn lemma_same_places(a: Seq<Column>, b: Seq<Column>, i: int)
    requires
        0 <= i <= b.len() <= a.len(),
        forall|j: int| 0 <= j < i ==> #[trigger] a[j] == b[j],
    ensures
        column_place(a, i) == column_place(b, i),
    decreases i,
{
    if i > 0 {
        lemma_same_places(a, b, i - 1);
        assert(a[i - 1] == b[i - 1]);
    }
}

/// What a column shows stands where the column starts.
proof fn lemma_shown_place(columns: Seq<Column>, i: int)
    requires
        0 <= i < columns.len(),
    ensures
        stands_at(
            joined(shown(columns), " "@),
            column_place(columns, i) as int,
            column_text(columns[i]),
        ),
    decreases columns.len(),
{
    reveal_strlit(" ");
    let whole = joined(shown(columns), " "@);
    let rest = columns.drop_last();
    let place = column_place(columns, i) as int;
    let text = column_text(columns[i]);
    assert(shown(columns)[i] == text);
    if columns.len() == 1 {
        assert(whole == text);
        assert(whole.subrange(0, text.len() as int) =~= text);
    } else {
        assert(shown(columns).drop_last() =~= shown(rest));
        let front = joined(shown(rest), " "@);
        assert(whole == front + " "@ + shown(columns).last());
        if i == columns.len() - 1 {
            lemma_joined_length(rest);
            lemma_same_places(columns, rest, i);
            assert(whole.subrange(place, place + text.len()) =~= text);
        } else {
            lemma_shown_place(rest, i);
            lemma_same_places(columns, rest, i);
            assert(whole.subrange(place, place + text.len()) =~= front.subrange(
                place,
                place + text.len(),
            ));
        }
    }
}

/// The text of a column stands at its start where it is left-aligned, and at its end
/// where it is right-aligned; its unit stands behind it.
proof fn lemma_column_place(columns: Seq<Column>, i: int)
    requires
        0 <= i < columns.len(),
    ensures
        ({
            let line = row_text(columns);
            let column = columns[i];
            let start = column_place(columns, i) as int;
            let end = start + wide(column.text, column.width);
            &&& column.align is Left ==> stands_at(line, start, column.text)
            &&& column.align is Right ==> stands_at(line, end - column.text.len(), column.text)
            &&& stands_at(line, end, column.unit)
        }),
{
    let line = row_text(columns);
    let column = columns[i];
    let start = column_place(columns, i) as int;
    let text = column_text(column);
    let end = start + wide(column.text, column.width);
    lemma_shown_place(columns, i);
    lemma_column_length(column);
    columns_hold_their_text(column.text, column.width);
    assert(line == joined(shown(columns), " "@) + "\n"@);
    assert(line.subrange(start, start + text.len()) =~= text);
    assert(line.subrange(end, end + column.unit.len()) =~= text.subrange(
        end - start,
        text.len() as int,
    ));
    assert(text.subrange(end - start, text.len() as int) =~= column.unit);
    if column.align is Left {
        assert(line.subrange(start, start + column.text.len()) =~= text.subrange(
            0,
            column.text.len() as int,
        ));
        assert(text.subrange(0, column.text.len() as int) =~= column.text);
    } else {
        let from = wide(column.text, column.width) - column.text.len();
        assert(line.subrange(end - column.text.len(), end) =~= text.subrange(
            from,
            from + column.text.len(),
        ));
        assert(text.subrange(from, from + column.text.len()) =~= column.text);
    }
}

/// Each fact of a session stands behind its label: a hyphen for a count that is not
/// known, and `running...` for the end of a session that has not ended.
pub proof fn session_facts_follow_their_labels(info: SessionInfo)
    ensures
        follows(
            concatenated(session_facts_parts(info)),
            "Session Info:\n  Started:      "@,
            info.started_at@,
            "\n  Ended:        "@,
        ),
        follows(
            concatenated(session_facts_parts(info)),
            "\n  Ended:        "@,
            match info.ended_at {
                Some(t) => t@,
                None => "running..."@,
            },
            "\n  Markets:      "@,
        ),
        follows(
            concatenated(session_facts_parts(info)),
            "\n  Markets:      "@,
            match info.markets_tracked {
                Some(n) => decimal(n as nat),
                None => "-"@,
            },
            "\n  Opportunities: "@,
        ),
        follows(
            concatenated(session_facts_parts(info)),
            "\n  Opportunities: "@,
            match info.opportunities_detected {
                Some(n) => decimal(n as nat),
                None => "-"@,
            },
            "\n"@,
        ),
{
    let parts = session_facts_parts(info);
    lemma_follows(parts, 0);
    lemma_follows(parts, 2);
    lemma_follows(parts, 4);
    lemma_follows(parts, 6);
}

/// Each number of a summary stands behind its label, and each share behind its number.
pub proof fn summary_numbers_follow_their_labels(
    total: u32,
    confirmed: u32,
    slipped: u32,
    shown: SummaryTexts,
)
    ensures
        follows(
            concatenated(session_summary_lines_parts(total, confirmed, slipped, shown)),
            "Total Opportunities:    "@,
            decimal(total as nat),
            "\nConfirmed:              "@,
        ),
        follows(
            concatenated(session_summary_lines_parts(total, confirmed, slipped, shown)),
            "\nConfirmed:              "@,
            decimal(confirmed as nat),
            " ("@,
        ),
        follows(
            concatenated(session_summary_lines_parts(total, confirmed, slipped, shown)),
            " ("@,
            shown.confirmed_percent@,
            "%)\nSlipped:                "@,
        ),
        follows(
            concatenated(session_summary_lines_parts(total, confirmed, slipped, shown)),
            "%)\nSlipped:                "@,
            decimal(slipped as nat),
            " ("@,
        ),
        follows(
            concatenated(session_summary_lines_parts(total, confirmed, slipped, shown)),
            " ("@,
            shown.slipped_percent@,
            "%)\nAvg Detected Profit:    "@,
        ),
        follows(
            concatenated(session_summary_lines_parts(total, confirmed, slipped, shown)),
            "%)\nAvg Detected Profit:    "@,
            shown.avg_profit@,
            "¢\nAvg Adjusted Profit:    "@,
        ),
        follows(
            concatenated(session_summary_lines_parts(total, confirmed, slipped, shown)),
            "¢\nAvg Adjusted Profit:    "@,
            shown.avg_adjusted_profit@,
            "¢\nAvg Fill Probability:   "@,
        ),
        follows(
            concatenated(session_summary_lines_parts(total, confirmed, slipped, shown)),
            "¢\nAvg Fill Probability:   "@,
            shown.avg_fill_percent@,
            "%\nTotal Theoretical:      "@,
        ),
        follows(
            concatenated(session_summary_lines_parts(total, confirmed, slipped, shown)),
            "%\nTotal Theoretical:      "@,
            shown.theoretical_cents@,
            "¢ ($"@,
        ),
        follows(
            concatenated(session_summary_lines_parts(total, confirmed, slipped, shown)),
            "¢ ($"@,
            shown.theoretical_dollars@,
            ")\nTotal Expected:         "@,
        ),
        follows(
            concatenated(session_summary_lines_parts(total, confirmed, slipped, shown)),
            ")\nTotal Expected:         "@,
            shown.expected_cents@,
            "¢ ($"@,
        ),
        follows(
            concatenated(session_summary_lines_parts(total, confirmed, slipped, shown)),
            "¢ ($"@,
            shown.expected_dollars@,
            ")\n"@,
        ),
{
    let parts = session_summary_lines_parts(total, confirmed, slipped, shown);
    lemma_follows(parts, 0);
    lemma_follows(parts, 2);
    lemma_follows(parts, 4);
    lemma_follows(parts, 6);
    lemma_follows(parts, 8);
    lemma_follows(parts, 10);
    lemma_follows(parts, 12);
    lemma_follows(parts, 14);
    lemma_follows(parts, 16);
    lemma_follows(parts, 18);
    lemma_follows(parts, 20);
    lemma_follows(parts, 22);
}

/// Each number of a short summary stands behind its label.
pub proof fn short_summary_numbers_follow_their_labels(
    total: u32,
    confirmed: u32,
    slipped: u32,
    shown: SummaryTexts,
)
    ensures
        follows(
            concatenated(short_summary_lines_parts(total, confirmed, slipped, shown)),
            "Total Opportunities:     "@,
            decimal(total as nat),
            "\nConfirmed:               "@,
        ),
        follows(
            concatenated(short_summary_lines_parts(total, confirmed, slipped, shown)),
            "\nConfirmed:               "@,
            decimal(confirmed as nat),
            " ("@,
        ),
        follows(
            concatenated(short_summary_lines_parts(total, confirmed, slipped, shown)),
            " ("@,
            shown.confirmed_percent@,
            "%)\nSlipped:                 "@,
        ),
        follows(
            concatenated(short_summary_lines_parts(total, confirmed, slipped, shown)),
            "%)\nSlipped:                 "@,
            decimal(slipped as nat),
            " ("@,
        ),
        follows(
            concatenated(short_summary_lines_parts(total, confirmed, slipped, shown)),
            " ("@,
            shown.slipped_percent@,
            "%)\nAvg Profit (detected):   "@,
        ),
        follows(
            concatenated(short_summary_lines_parts(total, confirmed, slipped, shown)),
            "%)\nAvg Profit (detected):   "@,
            shown.avg_profit@,
            "¢\nAvg Profit (adjusted):   "@,
        ),
        follows(
            concatenated(short_summary_lines_parts(total, confirmed, slipped, shown)),
            "¢\nAvg Profit (adjusted):   "@,
            shown.avg_adjusted_profit@,
            "¢\nAvg Fill Probability:    "@,
        ),
        follows(
            concatenated(short_summary_lines_parts(total, confirmed, slipped, shown)),
            "¢\nAvg Fill Probability:    "@,
            shown.avg_fill_percent@,
            "%\nAvg Duration:            "@,
        ),
        follows(
            concatenated(short_summary_lines_parts(total, confirmed, slipped, shown)),
            "%\nAvg Duration:            "@,
            shown.avg_duration_ms@,
            "ms\nTotal Theoretical:       "@,
        ),
        follows(
            concatenated(short_summary_lines_parts(total, confirmed, slipped, shown)),
            "ms\nTotal Theoretical:       "@,
            shown.theoretical_cents@,
            "¢\nTotal Expected:          "@,
        ),
        follows(
            concatenated(short_summary_lines_parts(total, confirmed, slipped, shown)),
            "¢\nTotal Expected:          "@,
            shown.expected_cents@,
            "¢\n"@,
        ),
{
    let parts = short_summary_lines_parts(total, confirmed, slipped, shown);
    lemma_follows(parts, 0);
    lemma_follows(parts, 2);
    lemma_follows(parts, 4);
    lemma_follows(parts, 6);
    lemma_follows(parts, 8);
    lemma_follows(parts, 10);
    lemma_follows(parts, 12);
    lemma_follows(parts, 14);
    lemma_follows(parts, 16);
    lemma_follows(parts, 18);
    lemma_follows(parts, 20);
}

/// Each number on slippage stands behind its label, zero where there is no slippage.
pub proof fn slippage_numbers_follow_their_labels(
    slipped: u32,
    analysis: SlippageAnalysis,
    avg_slippage: Seq<char>,
    avg_ticks: Seq<char>,
)
    ensures
        follows(
            concatenated(slippage_lines_parts(slipped, analysis, avg_slippage, avg_ticks)),
            "Slipped Opportunities:  "@,
            decimal(slipped as nat),
            "\nAvg Slippage:           "@,
        ),
        follows(
            concatenated(slippage_lines_parts(slipped, analysis, avg_slippage, avg_ticks)),
            "\nAvg Slippage:           "@,
            avg_slippage,
            "¢\nMax Slippage:           "@,
        ),
        follows(
            concatenated(slippage_lines_parts(slipped, analysis, avg_slippage, avg_ticks)),
            "¢\nMax Slippage:           "@,
            signed_decimal(
                match analysis.max_slippage {
                    Some(n) => n as int,
                    None => 0,
                },
            ),
            "¢\nMin Slippage:           "@,
        ),
        follows(
            concatenated(slippage_lines_parts(slipped, analysis, avg_slippage, avg_ticks)),
            "¢\nMin Slippage:           "@,
            signed_decimal(
                match analysis.min_slippage {
                    Some(n) => n as int,
                    None => 0,
                },
            ),
            "¢\nAvg Ticks Before Slip:  "@,
        ),
        follows(
            concatenated(slippage_lines_parts(slipped, analysis, avg_slippage, avg_ticks)),
            "¢\nAvg Ticks Before Slip:  "@,
            avg_ticks,
            "\n"@,
        ),
{
    let parts = slippage_lines_parts(slipped, analysis, avg_slippage, avg_ticks);
    lemma_follows(parts, 0);
    lemma_follows(parts, 2);
    lemma_follows(parts, 4);
    lemma_follows(parts, 6);
    lemma_follows(parts, 8);
}

/// Each number on slippage in the short report stands behind its label.
pub proof fn short_slippage_numbers_follow_their_labels(
    analysis: SlippageAnalysis,
    avg_slippage: Seq<char>,
    avg_ticks: Seq<char>,
)
    ensures
        follows(
            concatenated(short_slippage_lines_parts(analysis, avg_slippage, avg_ticks)),
            "Avg Slippage:            "@,
            avg_slippage,
            "¢\nMax Slippage:            "@,
        ),
        follows(
            concatenated(short_slippage_lines_parts(analysis, avg_slippage, avg_ticks)),
            "¢\nMax Slippage:            "@,
            signed_decimal(
                match analysis.max_slippage {
                    Some(n) => n as int,
                    None => 0,
                },
            ),
            "¢\nMin Slippage:            "@,
        ),
        follows(
            concatenated(short_slippage_lines_parts(analysis, avg_slippage, avg_ticks)),
            "¢\nMin Slippage:            "@,
            signed_decimal(
                match analysis.min_slippage {
                    Some(n) => n as int,
                    None => 0,
                },
            ),
            "¢\nAvg Ticks Before Slip:   "@,
        ),
        follows(
            concatenated(short_slippage_lines_parts(analysis, avg_slippage, avg_ticks)),
            "¢\nAvg Ticks Before Slip:   "@,
            avg_ticks,
            "\n"@,
        ),
{
    let parts = short_slippage_lines_parts(analysis, avg_slippage, avg_ticks);
    lemma_follows(parts, 0);
    lemma_follows(parts, 2);
    lemma_follows(parts, 4);
    lemma_follows(parts, 6);
}

/// Each fact of an opportunity stands behind its label; its description is cut at fifty
/// characters.
pub proof fn facts_of_an_opportunity_follow_their_labels(
    opp: TopOpportunity,
    fill_percent: Seq<char>,
    expected: Seq<char>,
)
    ensures
        follows(
            concatenated(top_opportunity_lines_parts(opp, fill_percent, expected)),
            "  "@,
            opp.market_description@.take(
                if opp.market_description@.len() < 50 {
                    opp.market_description@.len() as int
                } else {
                    50
                },
            ),
            "...\n    Strategy: "@,
        ),
        follows(
            concatenated(top_opportunity_lines_parts(opp, fill_percent, expected)),
            "...\n    Strategy: "@,
            opp.strategy_id@,
            " | Type: "@,
        ),
        follows(
            concatenated(top_opportunity_lines_parts(opp, fill_percent, expected)),
            " | Type: "@,
            opp.arb_type@,
            " | State: "@,
        ),
        follows(
            concatenated(top_opportunity_lines_parts(opp, fill_percent, expected)),
            " | State: "@,
            opp.state@,
            " ("@,
        ),
        follows(
            concatenated(top_opportunity_lines_parts(opp, fill_percent, expected)),
            " ("@,
            decimal(opp.ticks_valid as nat),
            " ticks)\n    Detected: "@,
        ),
        follows(
            concatenated(top_opportunity_lines_parts(opp, fill_percent, expected)),
            " ticks)\n    Detected: "@,
            signed_decimal(opp.detected_profit as int),
            "¢ | Adjusted: "@,
        ),
        follows(
            concatenated(top_opportunity_lines_parts(opp, fill_percent, expected)),
            "¢ | Adjusted: "@,
            signed_decimal(opp.adjusted_profit as int),
            "¢ | Fill: "@,
        ),
        follows(
            concatenated(top_opportunity_lines_parts(opp, fill_percent, expected)),
            "¢ | Fill: "@,
            fill_percent,
            "% | Expected: "@,
        ),
        follows(
            concatenated(top_opportunity_lines_parts(opp, fill_percent, expected)),
            "% | Expected: "@,
            expected,
            "¢\n\n"@,
        ),
{
    let parts = top_opportunity_lines_parts(opp, fill_percent, expected);
    lemma_cut(opp.market_description@, 50);
    lemma_follows(parts, 0);
    lemma_follows(parts, 2);
    lemma_follows(parts, 4);
    lemma_follows(parts, 6);
    lemma_follows(parts, 8);
    lemma_follows(parts, 10);
    lemma_follows(parts, 12);
    lemma_follows(parts, 14);
    lemma_follows(parts, 16);
}

/// The strategy with the highest expected profit is named, and its profit behind it.
pub proof fn best_profit_names_strategy_and_profit(strategy_id: Seq<char>, expected: Seq<char>)
    ensures
        follows(
            concatenated(best_profit_line_parts(strategy_id, expected)),
            "Best Expected Profit:   "@,
            strategy_id,
            " ("@,
        ),
        follows(
            concatenated(best_profit_line_parts(strategy_id, expected)),
            " ("@,
            expected,
            "¢)\n"@,
        ),
{
    let parts = best_profit_line_parts(strategy_id, expected);
    lemma_follows(parts, 0);
    lemma_follows(parts, 2);
}

/// The strategy with the highest rate is named, and its rate behind it.
pub proof fn best_rate_names_strategy_and_rate(strategy_id: Seq<char>, percent: Seq<char>)
    ensures
        follows(
            concatenated(best_rate_line_parts(strategy_id, percent)),
            "Best Confirmation Rate: "@,
            strategy_id,
            " ("@,
        ),
        follows(
            concatenated(best_rate_line_parts(strategy_id, percent)),
            " ("@,
            percent,
            "%)\n"@,
        ),
{
    let parts = best_rate_line_parts(strategy_id, percent);
    lemma_follows(parts, 0);
    lemma_follows(parts, 2);
}

/// The strategy with the lowest slippage is named, and its slippage behind it.
pub proof fn lowest_slippage_names_strategy_and_slippage(strategy_id: Seq<char>, slippage: Seq<char>)
    ensures
        follows(
            concatenated(lowest_slippage_line_parts(strategy_id, slippage)),
            "Lowest Avg Slippage:    "@,
            strategy_id,
            " ("@,
        ),
        follows(
            concatenated(lowest_slippage_line_parts(strategy_id, slippage)),
            " ("@,
            slippage,
            "¢)\n"@,
        ),
{
    let parts = lowest_slippage_line_parts(strategy_id, slippage);
    lemma_follows(parts, 0);
    lemma_follows(parts, 2);
}

/// Each fact of a strategy stands behind its label, and whether it is enabled behind
/// its identifier.
pub proof fn facts_of_a_strategy_follow_their_labels(strategy: StrategyRecord)
    ensures
        follows(
            concatenated(strategy_lines_parts(strategy)),
            "ID: "@,
            strategy.id@,
            if strategy.enabled {
                " [ENABLED]"@
            } else {
                " [DISABLED]"@
            },
        ),
        follows(
            concatenated(strategy_lines_parts(strategy)),
            strategy.id@,
            if strategy.enabled {
                " [ENABLED]"@
            } else {
                " [DISABLED]"@
            },
            "\nName: "@,
        ),
        follows(
            concatenated(strategy_lines_parts(strategy)),
            "\nName: "@,
            strategy.name@,
            "\nDescription: "@,
        ),
        follows(
            concatenated(strategy_lines_parts(strategy)),
            "\nDescription: "@,
            match strategy.description {
                Some(t) => t@,
                None => ""@,
            },
            "\nParameters: "@,
        ),
        follows(
            concatenated(strategy_lines_parts(strategy)),
            "\nParameters: "@,
            strategy.params_json@,
            "\n\n"@,
        ),
{
    let parts = strategy_lines_parts(strategy);
    lemma_follows(parts, 0);
    lemma_follows(parts, 1);
    lemma_follows(parts, 3);
    lemma_follows(parts, 5);
    lemma_follows(parts, 7);
}

/// How many markets were collected stands behind the venue.
pub proof fn venue_counts_follow_their_venue(venue: Seq<char>, count: usize)
    ensures
        follows(
            concatenated(venue_line_parts(venue, count)),
            "  ✅ "@,
            venue,
            ": "@,
        ),
        follows(
            concatenated(venue_line_parts(venue, count)),
            ": "@,
            decimal(count as nat),
            " markets\n"@,
        ),
{
    let parts = venue_line_parts(venue, count);
    lemma_follows(parts, 0);
    lemma_follows(parts, 2);
}

/// A failure names the series, and the reason behind it.
pub proof fn failures_name_series_and_reason(series: Seq<char>, reason: Seq<char>)
    ensures
        follows(
            concatenated(fetch_failed_line_parts(series, reason)),
            "  ⚠️ Failed to fetch "@,
            series,
            ": "@,
        ),
        follows(
            concatenated(fetch_failed_line_parts(series, reason)),
            ": "@,
            reason,
            "\n"@,
        ),
{
    let parts = fetch_failed_line_parts(series, reason);
    lemma_follows(parts, 0);
    lemma_follows(parts, 2);
}

/// A near arbitrage shows its ticker, its cost and its profit, the profit with its
/// sign.
pub proof fn near_arbs_show_cost_and_profit(arb: NearArb)
    ensures
        follows(
            concatenated(near_arb_line_parts(arb)),
            "  "@,
            arb.ticker@,
            " | cost="@,
        ),
        follows(
            concatenated(near_arb_line_parts(arb)),
            " | cost="@,
            signed_decimal(arb.cost as int),
            "¢ | potential="@,
        ),
        follows(
            concatenated(near_arb_line_parts(arb)),
            "¢ | potential="@,
            if arb.profit < 0 {
                signed_decimal(arb.profit as int)
            } else {
                "+"@ + signed_decimal(arb.profit as int)
            },
            "¢\n"@,
        ),
{
    let parts = near_arb_line_parts(arb);
    lemma_follows(parts, 0);
    lemma_follows(parts, 2);
    lemma_follows(parts, 4);
}

/// The moment of a snapshot stands behind its label.
pub proof fn collected_line_names_the_moment(timestamp: i64)
    ensures
        follows(
            concatenated(collected_line_parts(timestamp)),
            "\n✅ Snapshot complete at "@,
            signed_decimal(timestamp as int),
            "\n"@,
        ),
{
    let parts = collected_line_parts(timestamp);
    lemma_follows(parts, 0);
}

/// How many moments were collected stands behind each venue.
pub proof fn moments_follow_their_venue(kalshi: usize, polymarket: usize)
    ensures
        follows(
            concatenated(moment_lines_parts(kalshi, polymarket)),
            "Snapshots collected:\n  Kalshi: "@,
            decimal(kalshi as nat),
            " timestamps\n  Polymarket: "@,
        ),
        follows(
            concatenated(moment_lines_parts(kalshi, polymarket)),
            " timestamps\n  Polymarket: "@,
            decimal(polymarket as nat),
            " timestamps\n"@,
        ),
{
    let parts = moment_lines_parts(kalshi, polymarket);
    lemma_follows(parts, 0);
    lemma_follows(parts, 2);
}

/// Where the names of the columns stand above the sessions.
pub proof fn session_head_names_the_columns()
    ensures
        stands_at(row_text(session_table_head_columns()), 0, "Session ID"@),
        stands_at(row_text(session_table_head_columns()), 36, "Started"@),
        stands_at(row_text(session_table_head_columns()), 46, "Duration"@),
        stands_at(row_text(session_table_head_columns()), 58, "Markets"@),
        stands_at(row_text(session_table_head_columns()), 72, "Opps"@),
{
    let columns = session_table_head_columns();
    reveal_with_fuel(column_place, 6);
    reveal_strlit("");
    reveal_strlit("Duration");
    reveal_strlit("Markets");
    reveal_strlit("Opps");
    reveal_strlit("Session ID");
    reveal_strlit("Started");
    lemma_column_place(columns, 0);
    lemma_column_place(columns, 1);
    lemma_column_place(columns, 2);
    lemma_column_place(columns, 3);
    lemma_column_place(columns, 4);
}

/// Each value in the table of sessions stands in its own column: at the end of it where
/// it is right-aligned. A value that is too long moves what comes behind it.
pub proof fn session_values_stand_in_their_columns(info: SessionInfo)
    ensures
        ({
            let line = row_text(session_row_columns(info));
            let text0 = info.id@.take(
                if info.id@.len() < 30 {
                    info.id@.len() as int
                } else {
                    30
                },
            );
            let end0 = wide(text0, 30);
            let start1 = end0 + 1;
            let text1 = byte_slice(info.started_at@, 0, 10);
            let end1 = start1 + wide(text1, 12);
            let start2 = end1 + 1;
            let text2 = running_time(info);
            let end2 = start2 + wide(text2, 10);
            let start3 = end2 + 1;
            let text3 = match info.markets_tracked {
                Some(n) => decimal(n as nat),
                None => "-"@,
            };
            let end3 = start3 + wide(text3, 10);
            let start4 = end3 + 1;
            let text4 = match info.opportunities_detected {
                Some(n) => decimal(n as nat),
                None => "-"@,
            };
            let end4 = start4 + wide(text4, 10);
            &&& stands_at(line, 0, text0)
            &&& stands_at(line, end1 - text1.len(), text1)
            &&& stands_at(line, end2 - text2.len(), text2)
            &&& stands_at(line, end3 - text3.len(), text3)
            &&& stands_at(line, end4 - text4.len(), text4)
        }),
{
    let columns = session_row_columns(info);
    reveal_with_fuel(column_place, 6);
    reveal_strlit("");
    lemma_cut(info.id@, 30);
    lemma_column_place(columns, 0);
    lemma_column_place(columns, 1);
    lemma_column_place(columns, 2);
    lemma_column_place(columns, 3);
    lemma_column_place(columns, 4);
}

/// Where the names of the columns stand above the strategies.
pub proof fn strategy_head_names_the_columns()
    ensures
        stands_at(row_text(strategy_table_head_columns()), 0, "Strategy"@),
        stands_at(row_text(strategy_table_head_columns()), 25, "Tot"@),
        stands_at(row_text(strategy_table_head_columns()), 30, "Conf"@),
        stands_at(row_text(strategy_table_head_columns()), 36, "Slip"@),
        stands_at(row_text(strategy_table_head_columns()), 44, "AvgP"@),
        stands_at(row_text(strategy_table_head_columns()), 52, "AdjP"@),
        stands_at(row_text(strategy_table_head_columns()), 58, "ExpProf"@),
{
    let columns = strategy_table_head_columns();
    reveal_with_fuel(column_place, 8);
    reveal_strlit("");
    reveal_strlit("AdjP");
    reveal_strlit("AvgP");
    reveal_strlit("Conf");
    reveal_strlit("ExpProf");
    reveal_strlit("Slip");
    reveal_strlit("Strategy");
    reveal_strlit("Tot");
    lemma_column_place(columns, 0);
    lemma_column_place(columns, 1);
    lemma_column_place(columns, 2);
    lemma_column_place(columns, 3);
    lemma_column_place(columns, 4);
    lemma_column_place(columns, 5);
    lemma_column_place(columns, 6);
}

/// Each value in the table of strategies stands in its own column: at the end of it
/// where it is right-aligned. A value that is too long moves what comes behind it.
pub proof fn strategy_values_stand_in_their_columns(
    stats: StrategyStats,
    avg_profit: Seq<char>,
    avg_adjusted_profit: Seq<char>,
    expected: Seq<char>,
)
    ensures
        ({
            let line = row_text(strategy_row_columns(stats, avg_profit, avg_adjusted_profit, expected));
            let text0 = stats.strategy_id@.take(
                if stats.strategy_id@.len() < 22 {
                    stats.strategy_id@.len() as int
                } else {
                    22
                },
            );
            let end0 = wide(text0, 22);
            let start1 = end0 + 1;
            let text1 = decimal(stats.total_opportunities as nat);
            let end1 = start1 + wide(text1, 5);
            let start2 = end1 + 1;
            let text2 = decimal(stats.confirmed as nat);
            let end2 = start2 + wide(text2, 5);
            let start3 = end2 + 1;
            let text3 = decimal(stats.slipped as nat);
            let end3 = start3 + wide(text3, 5);
            let start4 = end3 + 1;
            let text4 = avg_profit;
            let end4 = start4 + wide(text4, 6);
            let start5 = end4 + 2;
            let text5 = avg_adjusted_profit;
            let end5 = start5 + wide(text5, 6);
            let start6 = end5 + 2;
            let text6 = expected;
            let end6 = start6 + wide(text6, 7);
            &&& stands_at(line, 0, text0)
            &&& stands_at(line, end1 - text1.len(), text1)
            &&& stands_at(line, end2 - text2.len(), text2)
            &&& stands_at(line, end3 - text3.len(), text3)
            &&& stands_at(line, end4 - text4.len(), text4)
            &&& stands_at(line, end4 as int, "¢"@)
            &&& stands_at(line, end5 - text5.len(), text5)
            &&& stands_at(line, end5 as int, "¢"@)
            &&& stands_at(line, end6 - text6.len(), text6)
            &&& stands_at(line, end6 as int, "¢"@)
        }),
{
    let columns = strategy_row_columns(stats, avg_profit, avg_adjusted_profit, expected);
    reveal_with_fuel(column_place, 8);
    reveal_strlit("");
    reveal_strlit("¢");
    lemma_cut(stats.strategy_id@, 22);
    lemma_column_place(columns, 0);
    lemma_column_place(columns, 1);
    lemma_column_place(columns, 2);
    lemma_column_place(columns, 3);
    lemma_column_place(columns, 4);
    lemma_column_place(columns, 5);
    lemma_column_place(columns, 6);
}

/// Where the names of the columns stand above the strategies in the short report.
pub proof fn short_strategy_head_names_the_columns()
    ensures
        stands_at(row_text(short_strategy_head_columns()), 0, "Strategy"@),
        stands_at(row_text(short_strategy_head_columns()), 22, "Total"@),
        stands_at(row_text(short_strategy_head_columns()), 30, "Conf"@),
        stands_at(row_text(short_strategy_head_columns()), 37, "Slip"@),
        stands_at(row_text(short_strategy_head_columns()), 43, "AvgProf"@),
        stands_at(row_text(short_strategy_head_columns()), 52, "ExpProf"@),
{
    let columns = short_strategy_head_columns();
    reveal_with_fuel(column_place, 7);
    reveal_strlit("");
    reveal_strlit("AvgProf");
    reveal_strlit("Conf");
    reveal_strlit("ExpProf");
    reveal_strlit("Slip");
    reveal_strlit("Strategy");
    reveal_strlit("Total");
    lemma_column_place(columns, 0);
    lemma_column_place(columns, 1);
    lemma_column_place(columns, 2);
    lemma_column_place(columns, 3);
    lemma_column_place(columns, 4);
    lemma_column_place(columns, 5);
}

/// Each value in the table of strategies in the short report stands in its own column:
/// at the end of it where it is right-aligned. A value that is too long moves what
/// comes behind it.
pub proof fn short_strategy_values_stand_in_their_columns(
    stats: StrategyStats,
    avg_profit: Seq<char>,
    expected: Seq<char>,
)
    ensures
        ({
            let line = row_text(short_strategy_row_columns(stats, avg_profit, expected));
            let text0 = stats.strategy_id@.take(
                if stats.strategy_id@.len() < 20 {
                    stats.strategy_id@.len() as int
                } else {
                    20
                },
            );
            let end0 = wide(text0, 20);
            let start1 = end0 + 1;
            let text1 = decimal(stats.total_opportunities as nat);
            let end1 = start1 + wide(text1, 6);
            let start2 = end1 + 1;
            let text2 = decimal(stats.confirmed as nat);
            let end2 = start2 + wide(text2, 6);
            let start3 = end2 + 1;
            let text3 = decimal(stats.slipped as nat);
            let end3 = start3 + wide(text3, 6);
            let start4 = end3 + 1;
            let text4 = avg_profit;
            let end4 = start4 + wide(text4, 7);
            let start5 = end4 + 2;
            let text5 = expected;
            let end5 = start5 + wide(text5, 7);
            &&& stands_at(line, 0, text0)
            &&& stands_at(line, end1 - text1.len(), text1)
            &&& stands_at(line, end2 - text2.len(), text2)
            &&& stands_at(line, end3 - text3.len(), text3)
            &&& stands_at(line, end4 - text4.len(), text4)
            &&& stands_at(line, end4 as int, "¢"@)
            &&& stands_at(line, end5 - text5.len(), text5)
            &&& stands_at(line, end5 as int, "¢"@)
        }),
{
    let columns = short_strategy_row_columns(stats, avg_profit, expected);
    reveal_with_fuel(column_place, 7);
    reveal_strlit("");
    reveal_strlit("¢");
    lemma_cut(stats.strategy_id@, 20);
    lemma_column_place(columns, 0);
    lemma_column_place(columns, 1);
    lemma_column_place(columns, 2);
    lemma_column_place(columns, 3);
    lemma_column_place(columns, 4);
    lemma_column_place(columns, 5);
}

/// Where the names of the columns stand above the kinds of arbitrage.
pub proof fn arb_type_head_names_the_columns()
    ensures
        stands_at(row_text(arb_type_table_head_columns()), 0, "Arb Type"@),
        stands_at(row_text(arb_type_table_head_columns()), 27, "Count"@),
        stands_at(row_text(arb_type_table_head_columns()), 34, "AvgProf"@),
        stands_at(row_text(arb_type_table_head_columns()), 44, "FillPr"@),
        stands_at(row_text(arb_type_table_head_columns()), 53, "Expected"@),
{
    let columns = arb_type_table_head_columns();
    reveal_with_fuel(column_place, 6);
    reveal_strlit("");
    reveal_strlit("Arb Type");
    reveal_strlit("AvgProf");
    reveal_strlit("Count");
    reveal_strlit("Expected");
    reveal_strlit("FillPr");
    lemma_column_place(columns, 0);
    lemma_column_place(columns, 1);
    lemma_column_place(columns, 2);
    lemma_column_place(columns, 3);
    lemma_column_place(columns, 4);
}

/// Each value in the table of kinds of arbitrage stands in its own column: at the end
/// of it where it is right-aligned. A value that is too long moves what comes behind
/// it.
pub proof fn arb_type_values_stand_in_their_columns(
    stats: ArbTypeStats,
    avg_profit: Seq<char>,
    fill_percent: Seq<char>,
    expected: Seq<char>,
)
    ensures
        ({
            let line = row_text(arb_type_row_columns(stats, avg_profit, fill_percent, expected));
            let text0 = stats.arb_type@;
            let end0 = wide(text0, 25);
            let start1 = end0 + 1;
            let text1 = decimal(stats.total_opportunities as nat);
            let end1 = start1 + wide(text1, 6);
            let start2 = end1 + 1;
            let text2 = avg_profit;
            let end2 = start2 + wide(text2, 7);
            let start3 = end2 + 2;
            let text3 = fill_percent;
            let end3 = start3 + wide(text3, 7);
            let start4 = end3 + 2;
            let text4 = expected;
            let end4 = start4 + wide(text4, 9);
            &&& stands_at(line, 0, text0)
            &&& stands_at(line, end1 - text1.len(), text1)
            &&& stands_at(line, end2 - text2.len(), text2)
            &&& stands_at(line, end2 as int, "¢"@)
            &&& stands_at(line, end3 - text3.len(), text3)
            &&& stands_at(line, end3 as int, "%"@)
            &&& stands_at(line, end4 - text4.len(), text4)
            &&& stands_at(line, end4 as int, "¢"@)
        }),
{
    let columns = arb_type_row_columns(stats, avg_profit, fill_percent, expected);
    reveal_with_fuel(column_place, 6);
    reveal_strlit("");
    reveal_strlit("%");
    reveal_strlit("¢");
    lemma_column_place(columns, 0);
    lemma_column_place(columns, 1);
    lemma_column_place(columns, 2);
    lemma_column_place(columns, 3);
    lemma_column_place(columns, 4);
}

/// Where the names of the columns stand above the comparison of strategies.
pub proof fn comparison_head_names_the_columns()
    ensures
        stands_at(row_text(comparison_head_columns()), 0, "Strategy"@),
        stands_at(row_text(comparison_head_columns()), 24, "Total"@),
        stands_at(row_text(comparison_head_columns()), 31, "Conf"@),
        stands_at(row_text(comparison_head_columns()), 35, "%"@),
        stands_at(row_text(comparison_head_columns()), 38, "Slip"@),
        stands_at(row_text(comparison_head_columns()), 42, "%"@),
        stands_at(row_text(comparison_head_columns()), 44, "AvgDet"@),
        stands_at(row_text(comparison_head_columns()), 51, "AvgAdj"@),
        stands_at(row_text(comparison_head_columns()), 60, "Fill"@),
        stands_at(row_text(comparison_head_columns()), 64, "%"@),
        stands_at(row_text(comparison_head_columns()), 66, "Expected"@),
        stands_at(row_text(comparison_head_columns()), 76, "Ticks"@),
{
    let columns = comparison_head_columns();
    reveal_with_fuel(column_place, 10);
    reveal_strlit("");
    reveal_strlit("%");
    reveal_strlit("AvgAdj");
    reveal_strlit("AvgDet");
    reveal_strlit("Conf");
    reveal_strlit("Expected");
    reveal_strlit("Fill");
    reveal_strlit("Slip");
    reveal_strlit("Strategy");
    reveal_strlit("Ticks");
    reveal_strlit("Total");
    lemma_column_place(columns, 0);
    lemma_column_place(columns, 1);
    lemma_column_place(columns, 2);
    lemma_column_place(columns, 3);
    lemma_column_place(columns, 4);
    lemma_column_place(columns, 5);
    lemma_column_place(columns, 6);
    lemma_column_place(columns, 7);
    lemma_column_place(columns, 8);
}

/// Each value in the comparison of strategies stands in its own column.
pub proof fn comparison_values_stand_in_their_columns(stats: StrategyStats, shown: ComparisonTexts)
    ensures
        ({
            let line = row_text(comparison_row_columns(stats, shown));
            let text0 = stats.strategy_id@.take(
                if stats.strategy_id@.len() < 22 {
                    stats.strategy_id@.len() as int
                } else {
                    22
                },
            );
            let end0 = wide(text0, 22);
            let start1 = end0 + 1;
            let text1 = decimal(stats.total_opportunities as nat);
            let end1 = start1 + wide(text1, 6);
            let start2 = end1 + 1;
            let text2 = shown.confirmed_percent@;
            let end2 = start2 + wide(text2, 5);
            let start3 = end2 + 1;
            let text3 = shown.slipped_percent@;
            let end3 = start3 + wide(text3, 5);
            let start4 = end3 + 1;
            let text4 = shown.avg_profit@;
            let end4 = start4 + wide(text4, 5);
            let start5 = end4 + 2;
            let text5 = shown.avg_adjusted_profit@;
            let end5 = start5 + wide(text5, 5);
            let start6 = end5 + 2;
            let text6 = shown.fill_percent@;
            let end6 = start6 + wide(text6, 5);
            let start7 = end6 + 1;
            let text7 = shown.expected@;
            let end7 = start7 + wide(text7, 7);
            let start8 = end7 + 2;
            let text8 = shown.avg_ticks@;
            let end8 = start8 + wide(text8, 6);
            &&& stands_at(line, 0, text0)
            &&& stands_at(line, end1 - text1.len(), text1)
            &&& stands_at(line, end2 - text2.len(), text2)
            &&& stands_at(line, end3 - text3.len(), text3)
            &&& stands_at(line, end4 - text4.len(), text4)
            &&& stands_at(line, end4 as int, "¢"@)
            &&& stands_at(line, end5 - text5.len(), text5)
            &&& stands_at(line, end5 as int, "¢"@)
            &&& stands_at(line, end6 - text6.len(), text6)
            &&& stands_at(line, end7 - text7.len(), text7)
            &&& stands_at(line, end7 as int, "¢"@)
            &&& stands_at(line, end8 - text8.len(), text8)
        }),
{
    let columns = comparison_row_columns(stats, shown);
    reveal_with_fuel(column_place, 10);
    reveal_strlit("");
    reveal_strlit("¢");
    lemma_cut(stats.strategy_id@, 22);
    lemma_column_place(columns, 0);
    lemma_column_place(columns, 1);
    lemma_column_place(columns, 2);
    lemma_column_place(columns, 3);
    lemma_column_place(columns, 4);
    lemma_column_place(columns, 5);
    lemma_column_place(columns, 6);
    lemma_column_place(columns, 7);
    lemma_column_place(columns, 8);
}

/// Where the names of the columns stand above the best quotes.
pub proof fn best_quote_head_names_the_columns()
    ensures
        stands_at(row_text(best_quote_head_columns()), 0, "Timestamp"@),
        stands_at(row_text(best_quote_head_columns()), 13, "Ticker"@),
        stands_at(row_text(best_quote_head_columns()), 47, "YES"@),
        stands_at(row_text(best_quote_head_columns()), 55, "NO"@),
        stands_at(row_text(best_quote_head_columns()), 60, "Cost"@),
{
    let columns = best_quote_head_columns();
    reveal_with_fuel(column_place, 6);
    reveal_strlit("");
    reveal_strlit("Cost");
    reveal_strlit("NO");
    reveal_strlit("Ticker");
    reveal_strlit("Timestamp");
    reveal_strlit("YES");
    lemma_column_place(columns, 0);
    lemma_column_place(columns, 1);
    lemma_column_place(columns, 2);
    lemma_column_place(columns, 3);
    lemma_column_place(columns, 4);
}

/// Each value of a quote stands in its own column.
pub proof fn best_quote_values_stand_in_their_columns(quote: BestQuote)
    ensures
        ({
            let line = row_text(best_quote_row_columns(quote));
            let text0 = signed_decimal(quote.timestamp as int);
            let end0 = wide(text0, 12);
            let start1 = end0 + 1;
            let text1 = quote.ticker@.take(
                if quote.ticker@.len() < 30 {
                    quote.ticker@.len() as int
                } else {
                    30
                },
            );
            let end1 = start1 + wide(text1, 30);
            let start2 = end1 + 1;
            let text2 = signed_decimal(quote.yes_ask as int);
            let end2 = start2 + wide(text2, 5);
            let start3 = end2 + 2;
            let text3 = signed_decimal(quote.no_ask as int);
            let end3 = start3 + wide(text3, 5);
            let start4 = end3 + 2;
            let text4 = signed_decimal(quote.cost as int);
            let end4 = start4 + wide(text4, 5);
            &&& stands_at(line, 0, text0)
            &&& stands_at(line, start1 as int, text1)
            &&& stands_at(line, end2 - text2.len(), text2)
            &&& stands_at(line, end2 as int, "¢"@)
            &&& stands_at(line, end3 - text3.len(), text3)
            &&& stands_at(line, end3 as int, "¢"@)
            &&& stands_at(line, end4 - text4.len(), text4)
            &&& stands_at(line, end4 as int, "¢"@)
        }),
{
    let columns = best_quote_row_columns(quote);
    reveal_with_fuel(column_place, 6);
    reveal_strlit("");
    reveal_strlit("¢");
    lemma_cut(quote.ticker@, 30);
    lemma_column_place(columns, 0);
    lemma_column_place(columns, 1);
    lemma_column_place(columns, 2);
    lemma_column_place(columns, 3);
    lemma_column_place(columns, 4);
}

/// The name of a bucket comes first, and how many quotes it has behind it.
pub proof fn bucket_values_stand_in_their_columns(bucket: CostBucket, count: u64)
    ensures
        ({
            let line = row_text(bucket_row_columns(bucket, count));
            let text0 = " "@;
            let end0 = wide(text0, 0);
            let start1 = end0 + 1;
            let text1 = bucket.title();
            let end1 = start1 + wide(text1, 20);
            let start2 = end1 + 1;
            let text2 = decimal(count as nat);
            let end2 = start2 + wide(text2, 6);
            &&& stands_at(line, 0, text0)
            &&& stands_at(line, start1 as int, text1)
            &&& stands_at(line, end2 - text2.len(), text2)
        }),
{
    let columns = bucket_row_columns(bucket, count);
    reveal_with_fuel(column_place, 4);
    reveal_strlit("");
    lemma_column_place(columns, 0);
    lemma_column_place(columns, 1);
    lemma_column_place(columns, 2);
}

/// The report on a session is titled with its identifier.
pub proof fn reports_are_titled_with_the_session(session_id: Seq<char>)
    ensures
        concatenated(report_title_parts(session_id)) == "BACKTEST REPORT: "@ + session_id,
{
    reveal_with_fuel(concatenated, 3);
    let parts = report_title_parts(session_id);
    assert(concatenated(parts) =~= parts[0] + parts[1]);
}

/// Where moments are written in ASCII, a session that has ended shows from which time of
/// day to which it ran: what stands in each moment from the twelfth to the nineteenth
/// character. The day is the first ten characters.
pub proof fn running_time_is_from_start_to_end(info: SessionInfo)
    requires
        is_ascii_chars(info.started_at@),
        info.started_at@.len() >= 19,
        info.ended_at is Some ==> is_ascii_chars(info.ended_at->0@) && info.ended_at->0@.len()
            >= 19,
    ensures
        moments_readable(info),
        byte_slice(info.started_at@, 0, 10) == info.started_at@.subrange(0, 10),
        match info.ended_at {
            Some(ended) => running_time(info) == info.started_at@.subrange(11, 19) + " - "@
                + ended@.subrange(11, 19),
            None => running_time(info) == "running..."@,
        },
{
    ascii_slices_are_characters(info.started_at@, 0, 10);
    ascii_slices_are_characters(info.started_at@, 11, 19);
    if let Some(ended) = info.ended_at {
        ascii_slices_are_characters(ended@, 11, 19);
    }
}

/// Recommended are the strategy with the best rate, and the one with the lowest slippage
/// behind it, each with its own number. Where there is none, nobody is, with a zero.
pub proof fn recommendations_name_who_is_recommended(
    rate: Option<Recommended>,
    slippage: Option<Recommended>,
)
    ensures
        recommendations_parts(rate, slippage)[0] == concatenated(
            match rate {
                Some(best) => best_rate_line_parts(best.strategy_id@, best.value@),
                None => best_rate_line_parts("N/A"@, "0.0"@),
            },
        ),
        recommendations_parts(rate, slippage)[1] == concatenated(
            match slippage {
                Some(best) => lowest_slippage_line_parts(best.strategy_id@, best.value@),
                None => lowest_slippage_line_parts("N/A"@, "0.0"@),
            },
        ),
{
}

/// Strategies are listed by their identifiers, each once.
pub proof fn strategies_are_listed_by_identifier(
    strategies: Seq<StrategyRecord>,
    order: Seq<usize>,
    i: int,
    j: int,
)
    requires
        are_lowest(text_keys(strategy_ids(strategies), false), order, strategies.len()),
        strategies.len() <= u64::MAX,
        0 <= i < j < order.len(),
    ensures
        order.len() == strategies.len(),
        order[i] < strategies.len(),
        order[j] < strategies.len(),
        order[i] != order[j],
        !text_before(strategies[order[j] as int].id@, strategies[order[i] as int].id@),
{
    let ids = strategy_ids(strategies);
    let keys = text_keys(ids, false);
    texts_are_picked_in_order(ids, false, order, strategies.len(), i, j);
    assert(crate::ranking::precedes(keys, order[i] as int, order[j] as int));
    assert(ids[order[i] as int] == strategies[order[i] as int].id@);
    assert(ids[order[j] as int] == strategies[order[j] as int].id@);
}

} // verus!
