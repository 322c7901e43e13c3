//! The export of a session: one line of comma-separated values for each opportunity.

use crate::collector::{comma_parts, joined_values_read_back};
use crate::ranking::{are_lowest, lowest, precedes};
use crate::text::{
    chars_of, decimal, decimal_has_no_leading_zero, join, joined, owned, signed_decimal, signed_text,
    texts, unsigned_text,
};
use vstd::prelude::*;
use vstd::string::*;

verus! {

/// A stored opportunity, as it is exported.
#[derive(Debug)]
pub struct ExportRow {
    pub strategy_id: String,
    pub market_id: u16,
    pub market_description: String,
    pub arb_type: String,
    pub detected_at_ns: i64,
    pub detected_cost: u16,
    pub detected_profit: i16,
    pub detected_yes_price: u16,
    pub detected_no_price: u16,
    pub detected_yes_size: u16,
    pub detected_no_size: u16,
    pub state: String,
    pub ticks_valid: u32,
    pub duration_ns: Option<i64>,
    pub worst_cost_seen: Option<u16>,
    pub best_cost_seen: Option<u16>,
    pub final_cost: Option<u16>,
    /// The estimated fill probability, with four decimals.
    pub estimated_fill_prob: String,
    pub estimated_slippage: Option<i16>,
    pub adjusted_profit: Option<i16>,
}

/// A text with semicolons in place of commas.
pub open spec fn without_commas(s: Seq<char>) -> Seq<char> {
    Seq::new(
        s.len(),
        |i: int| if s[i] == ',' {
            ';'
        } else {
            s[i]
        },
    )
}

/// A text with semicolons in place of commas.
pub fn replace_commas(s: &str) -> (text: String)
    ensures
        text@ == without_commas(s@),
{
    let chars: Vec<char> = chars_of(s);
    let mut text: String = String::new();
    let mut i: usize = 0;
    while i < chars.len()
        invariant
            i <= chars@.len(),
            chars@ == s@,
            text@ == without_commas(s@).take(i as int),
        decreases chars@.len() - i,
    {
        if chars[i] == ',' {
            proof {
                reveal_strlit(";");
            }
            text.append(";");
        } else {
            text.append(s.substring_char(i, i + 1));
        }
        i += 1;
        assert(text@ =~= without_commas(s@).take(i as int));
    }
    assert(text@ =~= without_commas(s@));
    text
}

/// An optional number, zero where there is none.
pub open spec fn price_or_zero(n: Option<u16>) -> Seq<char> {
    match n {
        Some(v) => decimal(v as nat),
        None => decimal(0),
    }
}

/// An optional number, zero where there is none.
fn show_price(n: Option<u16>) -> (text: String)
    ensures
        text@ == price_or_zero(n),
{
    match n {
        Some(v) => unsigned_text(v as u64),
        None => unsigned_text(0),
    }
}

/// An optional number, zero where there is none.
pub open spec fn cents_or_zero(n: Option<i16>) -> Seq<char> {
    match n {
        Some(v) => signed_decimal(v as int),
        None => signed_decimal(0),
    }
}

/// An optional number, zero where there is none.
fn show_cents(n: Option<i16>) -> (text: String)
    ensures
        text@ == cents_or_zero(n),
{
    match n {
        Some(v) => signed_text(v as i64),
        None => signed_text(0),
    }
}

/// An optional number, zero where there is none.
pub open spec fn time_or_zero(n: Option<i64>) -> Seq<char> {
    match n {
        Some(v) => signed_decimal(v as int),
        None => signed_decimal(0),
    }
}

/// An optional number, zero where there is none.
fn show_time(n: Option<i64>) -> (text: String)
    ensures
        text@ == time_or_zero(n),
{
    match n {
        Some(v) => signed_text(v),
        None => signed_text(0),
    }
}

/// The names of the values of a line.
pub open spec fn field_names() -> Seq<Seq<char>> {
    seq![
        "strategy_id"@,
        "market_id"@,
        "market_description"@,
        "arb_type"@,
        "detected_at_ns"@,
        "detected_cost"@,
        "detected_profit"@,
        "detected_yes_price"@,
        "detected_no_price"@,
        "detected_yes_size"@,
        "detected_no_size"@,
        "state"@,
        "ticks_valid"@,
        "duration_ns"@,
        "worst_cost_seen"@,
        "best_cost_seen"@,
        "final_cost"@,
        "estimated_fill_prob"@,
        "estimated_slippage"@,
        "adjusted_profit"@,
    ]
}

/// The values of a line.
pub open spec fn fields(row: ExportRow) -> Seq<Seq<char>> {
    seq![
        row.strategy_id@,
        decimal(row.market_id as nat),
        without_commas(row.market_description@),
        row.arb_type@,
        signed_decimal(row.detected_at_ns as int),
        decimal(row.detected_cost as nat),
        signed_decimal(row.detected_profit as int),
        decimal(row.detected_yes_price as nat),
        decimal(row.detected_no_price as nat),
        decimal(row.detected_yes_size as nat),
        decimal(row.detected_no_size as nat),
        row.state@,
        decimal(row.ticks_valid as nat),
        time_or_zero(row.duration_ns),
        price_or_zero(row.worst_cost_seen),
        price_or_zero(row.best_cost_seen),
        price_or_zero(row.final_cost),
        row.estimated_fill_prob@,
        cents_or_zero(row.estimated_slippage),
        cents_or_zero(row.adjusted_profit),
    ]
}

/// The line of an opportunity.
pub open spec fn line_text(row: ExportRow) -> Seq<char> {
    joined(fields(row), ","@)
}

/// The first line of an export: the names of the values.
pub fn csv_head() -> (line: String)
    ensures
        line@ == joined(field_names(), ","@),
{
    let names: Vec<String> = vec![
        owned("strategy_id"),
        owned("market_id"),
        owned("market_description"),
        owned("arb_type"),
        owned("detected_at_ns"),
        owned("detected_cost"),
        owned("detected_profit"),
        owned("detected_yes_price"),
        owned("detected_no_price"),
        owned("detected_yes_size"),
        owned("detected_no_size"),
        owned("state"),
        owned("ticks_valid"),
        owned("duration_ns"),
        owned("worst_cost_seen"),
        owned("best_cost_seen"),
        owned("final_cost"),
        owned("estimated_fill_prob"),
        owned("estimated_slippage"),
        owned("adjusted_profit"),
    ];
    assert(texts(names@) =~= field_names());
    join(&names, ",")
}

/// The line of an opportunity.
pub fn csv_line(row: &ExportRow) -> (line: String)
    ensures
        line@ == line_text(*row),
{
    let values: Vec<String> = vec![
        owned(row.strategy_id.as_str()),
        unsigned_text(row.market_id as u64),
        replace_commas(row.market_description.as_str()),
        owned(row.arb_type.as_str()),
        signed_text(row.detected_at_ns as i64),
        unsigned_text(row.detected_cost as u64),
        signed_text(row.detected_profit as i64),
        unsigned_text(row.detected_yes_price as u64),
        unsigned_text(row.detected_no_price as u64),
        unsigned_text(row.detected_yes_size as u64),
        unsigned_text(row.detected_no_size as u64),
        owned(row.state.as_str()),
        unsigned_text(row.ticks_valid as u64),
        show_time(row.duration_ns),
        show_price(row.worst_cost_seen),
        show_price(row.best_cost_seen),
        show_price(row.final_cost),
        owned(row.estimated_fill_prob.as_str()),
        show_cents(row.estimated_slippage),
        show_cents(row.adjusted_profit),
    ];
    assert(texts(values@) =~= fields(*row));
    join(&values, ",")
}

/// The keys that order opportunities by when they were detected.
pub open spec fn time_keys(rows: Seq<ExportRow>) -> Seq<i128> {
    Seq::new(rows.len(), |i: int| rows[i].detected_at_ns as i128)
}

/// The lines of the opportunities in `order`, each ended.
pub open spec fn lines_text(rows: Seq<ExportRow>, order: Seq<usize>) -> Seq<char>
    decreases order.len(),
{
    if order.len() == 0 {
        Seq::empty()
    } else {
        lines_text(rows, order.drop_last()) + line_text(rows[order.last() as int]) + "\n"@
    }
}

/// The export of a session: the names of the values, then a line for each
/// opportunity, by when it was detected.
pub fn csv_text(rows: &Vec<ExportRow>) -> (text: String)
    ensures
        exists|order: Seq<usize>| #[trigger]
            are_lowest(time_keys(rows@), order, rows@.len()) && text@ == joined(
                field_names(),
                ","@,
            ) + "\n"@ + lines_text(rows@, order),
{
    let mut keys: Vec<i128> = Vec::new();
    let mut i: usize = 0;
    while i < rows.len()
        invariant
            i <= rows@.len(),
            keys@.len() == i,
            forall|j: int| 0 <= j < i ==> #[trigger] keys@[j] == time_keys(rows@)[j],
        decreases rows@.len() - i,
    {
        keys.push(rows[i].detected_at_ns as i128);
        i += 1;
    }
    assert(keys@ =~= time_keys(rows@));
    let order: Vec<usize> = lowest(&keys, rows.len());
    let mut text: String = csv_head();
    text.append("\n");
    let ghost head = text@;
    let mut k: usize = 0;
    assert(head + lines_text(rows@, order@.take(0)) =~= head);
    while k < order.len()
        invariant
            k <= order@.len(),
            are_lowest(time_keys(rows@), order@, rows@.len()),
            text@ == head + lines_text(rows@, order@.take(k as int)),
        decreases order@.len() - k,
    {
        let ghost before = lines_text(rows@, order@.take(k as int));
        assert(order@.take(k + 1).drop_last() =~= order@.take(k as int));
        let line: String = csv_line(&rows[order[k]]);
        text.append(line.as_str());
        text.append("\n");
        k += 1;
        assert(text@ =~= head + (before + line@ + "\n"@));
    }
    assert(order@.take(k as int) =~= order@);
    text
}

/// The name of the file that a session is exported to.
pub fn csv_file_name(session_id: &str) -> (name: String)
    ensures
        name@ == session_id@ + ".csv"@,
{
    let mut name: String = owned(session_id);
    name.append(".csv");
    name
}

/// That a session was exported to a file.
pub fn exported_line(session_id: &str, file_name: &str) -> (line: String)
    ensures
        line@ == "Exported "@ + session_id@ + " to "@ + file_name@ + "\n"@,
{
    let mut line: String = owned("Exported ");
    line.append(session_id);
    line.append(" to ");
    line.append(file_name);
    line.append("\n");
    line
}

/// A text whose commas were replaced holds none, and is as long as it was.
pub proof fn replaced_text_holds_no_comma(s: Seq<char>)
    ensures
        !without_commas(s).contains(','),
        without_commas(s).len() == s.len(),
{
}

/// The decimal text of a number holds no comma.
proof fn lemma_number_holds_no_comma(n: int)
    ensures
        !signed_decimal(n).contains(','),
        n >= 0 ==> !decimal(n as nat).contains(','),
{
    let size = (if n < 0 { -n } else { n }) as nat;
    crate::text::decimal_reads_back(size);
    assert(!decimal(size).contains(',')) by {
        if decimal(size).contains(',') {
            let k = choose|k: int| 0 <= k < decimal(size).len() && decimal(size)[k] == ',';
            assert('0' <= decimal(size)[k] <= '9');
        }
    }
    if signed_decimal(n).contains(',') {
        let k = choose|k: int|
            0 <= k < signed_decimal(n).len() && signed_decimal(n)[k] == ',';
        if n < 0 && k > 0 {
            assert(decimal(size)[k - 1] == ',');
        }
    }
}

/// The line of an opportunity reads back as its twenty values, whatever the
/// description of its market holds, as long as the identifiers hold no comma.
pub proof fn exported_line_reads_back(row: ExportRow)
    requires
        !row.strategy_id@.contains(','),
        !row.arb_type@.contains(','),
        !row.state@.contains(','),
        !row.estimated_fill_prob@.contains(','),
    ensures
        comma_parts(line_text(row)) == fields(row),
        fields(row).len() == field_names().len(),
{
    replaced_text_holds_no_comma(row.market_description@);
    lemma_number_holds_no_comma(row.market_id as int);
    lemma_number_holds_no_comma(row.detected_at_ns as int);
    lemma_number_holds_no_comma(row.detected_cost as int);
    lemma_number_holds_no_comma(row.detected_profit as int);
    lemma_number_holds_no_comma(row.detected_yes_price as int);
    lemma_number_holds_no_comma(row.detected_no_price as int);
    lemma_number_holds_no_comma(row.detected_yes_size as int);
    lemma_number_holds_no_comma(row.detected_no_size as int);
    lemma_number_holds_no_comma(row.ticks_valid as int);
    lemma_number_holds_no_comma(0);
    if let Some(v) = row.duration_ns {
        lemma_number_holds_no_comma(v as int);
    }
    if let Some(v) = row.worst_cost_seen {
        lemma_number_holds_no_comma(v as int);
    }
    if let Some(v) = row.best_cost_seen {
        lemma_number_holds_no_comma(v as int);
    }
    if let Some(v) = row.final_cost {
        lemma_number_holds_no_comma(v as int);
    }
    if let Some(v) = row.estimated_slippage {
        lemma_number_holds_no_comma(v as int);
    }
    if let Some(v) = row.adjusted_profit {
        lemma_number_holds_no_comma(v as int);
    }
    joined_values_read_back(fields(row));
}

/// Each value of a line stands under its own name, as the comma-separated line reads
/// back: the text of the row's own field of that name, zero where there is no value.
pub proof fn values_stand_under_their_names(row: ExportRow)
    requires
        !row.strategy_id@.contains(','),
        !row.arb_type@.contains(','),
        !row.state@.contains(','),
        !row.estimated_fill_prob@.contains(','),
    ensures
        field_names().len() == 20,
        comma_parts(line_text(row)).len() == 20,
        field_names()[0] == "strategy_id"@,
        comma_parts(line_text(row))[0] == row.strategy_id@,
        field_names()[1] == "market_id"@,
        comma_parts(line_text(row))[1] == decimal(row.market_id as nat),
        field_names()[2] == "market_description"@,
        comma_parts(line_text(row))[2] == without_commas(row.market_description@),
        field_names()[3] == "arb_type"@,
        comma_parts(line_text(row))[3] == row.arb_type@,
        field_names()[4] == "detected_at_ns"@,
        comma_parts(line_text(row))[4] == signed_decimal(row.detected_at_ns as int),
        field_names()[5] == "detected_cost"@,
        comma_parts(line_text(row))[5] == decimal(row.detected_cost as nat),
        field_names()[6] == "detected_profit"@,
        comma_parts(line_text(row))[6] == signed_decimal(row.detected_profit as int),
        field_names()[7] == "detected_yes_price"@,
        comma_parts(line_text(row))[7] == decimal(row.detected_yes_price as nat),
        field_names()[8] == "detected_no_price"@,
        comma_parts(line_text(row))[8] == decimal(row.detected_no_price as nat),
        field_names()[9] == "detected_yes_size"@,
        comma_parts(line_text(row))[9] == decimal(row.detected_yes_size as nat),
        field_names()[10] == "detected_no_size"@,
        comma_parts(line_text(row))[10] == decimal(row.detected_no_size as nat),
        field_names()[11] == "state"@,
        comma_parts(line_text(row))[11] == row.state@,
        field_names()[12] == "ticks_valid"@,
        comma_parts(line_text(row))[12] == decimal(row.ticks_valid as nat),
        field_names()[13] == "duration_ns"@,
        comma_parts(line_text(row))[13] == match row.duration_ns {
            Some(n) => signed_decimal(n as int),
            None => seq!['0'],
        },
        field_names()[14] == "worst_cost_seen"@,
        comma_parts(line_text(row))[14] == match row.worst_cost_seen {
            Some(n) => decimal(n as nat),
            None => seq!['0'],
        },
        field_names()[15] == "best_cost_seen"@,
        comma_parts(line_text(row))[15] == match row.best_cost_seen {
            Some(n) => decimal(n as nat),
            None => seq!['0'],
        },
        field_names()[16] == "final_cost"@,
        comma_parts(line_text(row))[16] == match row.final_cost {
            Some(n) => decimal(n as nat),
            None => seq!['0'],
        },
        field_names()[17] == "estimated_fill_prob"@,
        comma_parts(line_text(row))[17] == row.estimated_fill_prob@,
        field_names()[18] == "estimated_slippage"@,
        comma_parts(line_text(row))[18] == match row.estimated_slippage {
            Some(n) => signed_decimal(n as int),
            None => seq!['0'],
        },
        field_names()[19] == "adjusted_profit"@,
        comma_parts(line_text(row))[19] == match row.adjusted_profit {
            Some(n) => signed_decimal(n as int),
            None => seq!['0'],
        },
{
    exported_line_reads_back(row);
    decimal_has_no_leading_zero(0);
    assert(signed_decimal(0) == seq!['0']);
}

/// The head of an export reads back as the names of the values.
pub proof fn head_reads_back()
    ensures
        comma_parts(joined(field_names(), ","@)) == field_names(),
{
    reveal_strlit("strategy_id");
    reveal_strlit("market_id");
    reveal_strlit("market_description");
    reveal_strlit("arb_type");
    reveal_strlit("detected_at_ns");
    reveal_strlit("detected_cost");
    reveal_strlit("detected_profit");
    reveal_strlit("detected_yes_price");
    reveal_strlit("detected_no_price");
    reveal_strlit("detected_yes_size");
    reveal_strlit("detected_no_size");
    reveal_strlit("state");
    reveal_strlit("ticks_valid");
    reveal_strlit("duration_ns");
    reveal_strlit("worst_cost_seen");
    reveal_strlit("best_cost_seen");
    reveal_strlit("final_cost");
    reveal_strlit("estimated_fill_prob");
    reveal_strlit("estimated_slippage");
    reveal_strlit("adjusted_profit");
    assert forall|i: int| 0 <= i < field_names().len() implies !(#[trigger] field_names()[i]).contains(
        ',',
    ) by {
    }
    joined_values_read_back(field_names());
}

/// Only commas are replaced, each by a semicolon.
pub proof fn only_commas_are_replaced(s: Seq<char>, i: int)
    requires
        0 <= i < s.len(),
    ensures
        s[i] == ',' ==> without_commas(s)[i] == ';',
        s[i] != ',' ==> without_commas(s)[i] == s[i],
{
}

/// An export lists every opportunity once, and none before one that was detected earlier.
pub proof fn exports_go_by_detection(rows: Seq<ExportRow>, order: Seq<usize>, i: int, j: int)
    requires
        are_lowest(time_keys(rows), order, rows.len()),
        0 <= i < j < order.len(),
    ensures
        order.len() == rows.len(),
        order[i] < rows.len(),
        order[j] < rows.len(),
        order[i] != order[j],
        rows[order[i] as int].detected_at_ns <= rows[order[j] as int].detected_at_ns,
        rows[order[i] as int].detected_at_ns == rows[order[j] as int].detected_at_ns ==> order[i]
            < order[j],
{
    let keys = time_keys(rows);
    assert(precedes(keys, order[i] as int, order[j] as int));
    assert(keys[order[i] as int] == rows[order[i] as int].detected_at_ns as i128);
    assert(keys[order[j] as int] == rows[order[j] as int].detected_at_ns as i128);
}

/// Each opportunity of an export has its line, ended, between the lines of those before
/// it and of those after it.
pub proof fn exported_lines_stand_in_order(rows: Seq<ExportRow>, order: Seq<usize>, k: int)
    requires
        0 <= k < order.len(),
    ensures
        lines_text(rows, order) == lines_text(rows, order.take(k)) + line_text(
            rows[order[k] as int],
        ) + "\n"@ + lines_text(rows, order.skip(k + 1)),
    decreases order.len(),
{
    if k == order.len() - 1 {
        assert(order.take(k) =~= order.drop_last());
        assert(order.skip(k + 1) =~= Seq::<usize>::empty());
        assert(lines_text(rows, order) =~= lines_text(rows, order.take(k)) + line_text(
            rows[order[k] as int],
        ) + "\n"@ + lines_text(rows, order.skip(k + 1)));
    } else {
        let rest = order.drop_last();
        exported_lines_stand_in_order(rows, rest, k);
        assert(rest.take(k) =~= order.take(k));
        assert(rest.skip(k + 1) =~= order.skip(k + 1).drop_last());
        assert(lines_text(rows, order) =~= lines_text(rows, order.take(k)) + line_text(
            rows[order[k] as int],
        ) + "\n"@ + lines_text(rows, order.skip(k + 1)));
    }
}

} // verus!
