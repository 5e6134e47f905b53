//! The history store laid out for display: two columns of ten entries, each
//! entry with its number.

use crate::text::{decimal_digits, push_decimal};
use vstd::prelude::*;

verus! {

/// How many rows the table has. The first column shows the entries 1 to 10,
/// the second the entries 11 to 20; later entries are not shown.
pub const TABLE_ROWS: usize = 10;

/// One row of the table: an entry of the first column and one of the second,
/// each with its number. A place without an entry is blank.
#[derive(Clone, Debug, PartialEq, Eq)]
pub struct TableRow {
    pub left_number: String,
    pub left_name: String,
    pub right_number: String,
    pub right_name: String,
}

/// A [`TableRow`] as plain values.
pub struct TableRowView {
    pub left_number: Seq<char>,
    pub left_name: Seq<char>,
    pub right_number: Seq<char>,
    pub right_name: Seq<char>,
}

impl View for TableRow {
    type V = TableRowView;

    open spec fn view(&self) -> TableRowView {
        TableRowView {
            left_number: self.left_number@,
            left_name: self.left_name@,
            right_number: self.right_number@,
            right_name: self.right_name@,
        }
    }
}

/// The number shown for the entry at `index`, counting from one; blank
/// where `history` has no such entry.
pub open spec fn shown_number(history: Seq<Seq<char>>, index: int) -> Seq<char> {
    if 0 <= index < history.len() {
        decimal_digits((index + 1) as nat)
    } else {
        Seq::empty()
    }
}

/// The name shown for the entry at `index`; blank where `history` has no
/// such entry.
pub open spec fn shown_name(history: Seq<Seq<char>>, index: int) -> Seq<char> {
    if 0 <= index < history.len() {
        history[index]
    } else {
        Seq::empty()
    }
}

/// The row `row` of the table of `history`.
pub open spec fn table_row(history: Seq<Seq<char>>, row: int) -> TableRowView {
    TableRowView {
        left_number: shown_number(history, row),
        left_name: shown_name(history, row),
        right_number: shown_number(history, row + TABLE_ROWS),
        right_name: shown_name(history, row + TABLE_ROWS),
    }
}

/// The number and the name shown for the entry at `index`.
fn cell(history: &[String], index: usize) -> (r: (String, String))
    requires
        index < 2 * TABLE_ROWS,
    ensures
        r.0@ == shown_number(history.deep_view(), index as int),
        r.1@ == shown_name(history.deep_view(), index as int),
{
    let mut number = String::new();
    let mut name = String::new();
    if index < history.len() {
        push_decimal(&mut number, (index + 1) as u32);
        name = history[index].clone();
        assert(number@ =~= decimal_digits((index + 1) as nat));
    }
    (number, name)
}

/// The table of `history`: ten rows, whatever the number of entries.
pub fn history_table(history: &[String]) -> (rows: Vec<TableRow>)
    ensures
        rows.len() == TABLE_ROWS,
        forall|i: int| 0 <= i < TABLE_ROWS ==> (#[trigger] rows[i])@ == table_row(
            history.deep_view(),
            i,
        ),
{
    let mut rows: Vec<TableRow> = Vec::new();
    let mut i: usize = 0;
    while i < TABLE_ROWS
        invariant
            i <= TABLE_ROWS,
            rows.len() == i,
            forall|j: int| 0 <= j < i ==> (#[trigger] rows[j])@ == table_row(
                history.deep_view(),
                j,
            ),
        decreases TABLE_ROWS - i,
    {
        let (left_number, left_name) = cell(history, i);
        let (right_number, right_name) = cell(history, i + TABLE_ROWS);
        rows.push(TableRow { left_number, left_name, right_number, right_name });
        i = i + 1;
    }
    rows
}

} // verus!
