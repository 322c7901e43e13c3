//! The layout of reports: rules, headings and tables of aligned columns.

use crate::text::{
    chain, concatenated, join, joined, owned, pad_left, pad_right, padded_left, padded_right,
    repeated, rule, texts,
};
use vstd::prelude::*;
use vstd::string::*;

verus! {

/// The side of a column on which its text stands.
#[derive(Debug, Clone, Copy, PartialEq, Eq, Structural)]
pub enum Align {
    Left,
    Right,
}

/// A column of a table: a text, padded to a width, with a unit behind it.
pub struct Column {
    pub text: Seq<char>,
    pub width: nat,
    pub align: Align,
    pub unit: Seq<char>,
}

/// A left-aligned column.
pub open spec fn left(text: Seq<char>, width: nat, unit: Seq<char>) -> Column {
    Column { text, width, align: Align::Left, unit }
}

/// A right-aligned column.
pub open spec fn right(text: Seq<char>, width: nat, unit: Seq<char>) -> Column {
    Column { text, width, align: Align::Right, unit }
}

/// What a column shows.
pub open spec fn column_text(column: Column) -> Seq<char> {
    match column.align {
        Align::Left => padded_right(column.text, column.width) + column.unit,
        Align::Right => padded_left(column.text, column.width) + column.unit,
    }
}

/// A line of a table: its columns with a space between them.
pub open spec fn row_text(columns: Seq<Column>) -> Seq<char> {
    joined(Seq::new(columns.len(), |i: int| column_text(columns[i])), " "@) + "\n"@
}

/// A column of a table.
#[derive(Debug)]
pub struct Cell {
    pub text: String,
    pub width: usize,
    pub align: Align,
    pub unit: String,
}

impl View for Cell {
    type V = Column;

    open spec fn view(&self) -> Column {
        Column {
            text: self.text@,
            width: self.width as nat,
            align: self.align,
            unit: self.unit@,
        }
    }
}

/// The columns that a list of cells holds.
pub open spec fn columns(cells: Seq<Cell>) -> Seq<Column> {
    Seq::new(cells.len(), |i: int| cells[i]@)
}

/// A left-aligned column.
pub fn left_cell(text: String, width: usize, unit: &str) -> (cell: Cell)
    ensures
        cell@ == left(text@, width as nat, unit@),
{
    Cell { text, width, align: Align::Left, unit: owned(unit) }
}

/// A right-aligned column.
pub fn right_cell(text: String, width: usize, unit: &str) -> (cell: Cell)
    ensures
        cell@ == right(text@, width as nat, unit@),
{
    Cell { text, width, align: Align::Right, unit: owned(unit) }
}

/// A line of a table.
pub fn table_row(cells: &Vec<Cell>) -> (line: String)
    ensures
        line@ == row_text(columns(cells@)),
{
    let mut shown: Vec<String> = Vec::new();
    let mut i: usize = 0;
    while i < cells.len()
        invariant
            i <= cells@.len(),
            shown@.len() == i,
            forall|j: int| 0 <= j < i ==> (#[trigger] shown@[j])@ == column_text(cells@[j]@),
        decreases cells@.len() - i,
    {
        let cell: &Cell = &cells[i];
        let mut text: String = match cell.align {
            Align::Left => pad_right(cell.text.as_str(), cell.width),
            Align::Right => pad_left(cell.text.as_str(), cell.width),
        };
        text.append(cell.unit.as_str());
        shown.push(text);
        i += 1;
    }
    assert(texts(shown@) =~= Seq::new(
        columns(cells@).len(),
        |j: int| column_text(columns(cells@)[j]),
    ));
    let mut line: String = join(&shown, " ");
    line.append("\n");
    line
}

/// A line of `width` equals signs.
pub open spec fn double_rule(width: nat) -> Seq<char> {
    repeated('=', width) + "\n"@
}

/// A line of `width` hyphens.
pub open spec fn single_rule(width: nat) -> Seq<char> {
    repeated('-', width) + "\n"@
}

/// A line of `width` equals signs.
pub fn double_line(width: usize) -> (line: String)
    ensures
        line@ == double_rule(width as nat),
{
    proof {
        reveal_strlit("=");
    }
    let mut line: String = rule("=", width);
    line.append("\n");
    line
}

/// A line of `width` hyphens.
pub fn single_line(width: usize) -> (line: String)
    ensures
        line@ == single_rule(width as nat),
{
    proof {
        reveal_strlit("-");
    }
    let mut line: String = rule("-", width);
    line.append("\n");
    line
}

/// The parts of [`banner`].
pub open spec fn banner_parts(title: Seq<char>, width: usize) -> Seq<Seq<char>> {
    seq![
        "\n"@,
        double_rule(width as nat),
        title,
        "\n"@,
        double_rule(width as nat),
        "\n"@,
    ]
}

/// The title of a report, between double rules.
pub fn banner(title: &str, width: usize) -> (text: String)
    ensures
        text@ == concatenated(banner_parts(title@, width)),
{
    let parts: Vec<String> = vec![
        owned("\n"),
        double_line(width),
        owned(title),
        owned("\n"),
        double_line(width),
        owned("\n"),
    ];
    assert(texts(parts@) =~= banner_parts(title@, width));
    chain(&parts)
}

/// The parts of [`section`].
pub open spec fn section_parts(title: Seq<char>) -> Seq<Seq<char>> {
    seq![
        "\n"@,
        single_rule(40),
        title,
        "\n"@,
        single_rule(40),
    ]
}

/// The title of a section, between rules.
pub fn section(title: &str) -> (text: String)
    ensures
        text@ == concatenated(section_parts(title@)),
{
    let parts: Vec<String> = vec![
        owned("\n"),
        single_line(40),
        owned(title),
        owned("\n"),
        single_line(40),
    ];
    assert(texts(parts@) =~= section_parts(title@));
    chain(&parts)
}

/// The parts of [`heading`].
pub open spec fn heading_parts(title: Seq<char>) -> Seq<Seq<char>> {
    seq![
        title,
        "\n"@,
        single_rule(40),
    ]
}

/// The title of a section, above a rule.
pub fn heading(title: &str) -> (text: String)
    ensures
        text@ == concatenated(heading_parts(title@)),
{
    let parts: Vec<String> = vec![
        owned(title),
        owned("\n"),
        single_line(40),
    ];
    assert(texts(parts@) =~= heading_parts(title@));
    chain(&parts)
}

/// The parts of [`closing`].
pub open spec fn closing_parts(width: usize) -> Seq<Seq<char>> {
    seq![
        double_rule(width as nat),
        "\n"@,
    ]
}

/// The end of a report.
pub fn closing(width: usize) -> (text: String)
    ensures
        text@ == concatenated(closing_parts(width)),
{
    let parts: Vec<String> = vec![
        double_line(width),
        owned("\n"),
    ];
    assert(texts(parts@) =~= closing_parts(width));
    chain(&parts)
}

/// The parts of [`spaced_closing`].
pub open spec fn spaced_closing_parts(width: usize) -> Seq<Seq<char>> {
    seq![
        "\n"@,
        double_rule(width as nat),
        "\n"@,
    ]
}

/// The end of a report, after an empty line.
pub fn spaced_closing(width: usize) -> (text: String)
    ensures
        text@ == concatenated(spaced_closing_parts(width)),
{
    let parts: Vec<String> = vec![
        owned("\n"),
        double_line(width),
        owned("\n"),
    ];
    assert(texts(parts@) =~= spaced_closing_parts(width));
    chain(&parts)
}

} // verus!
