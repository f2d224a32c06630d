//! Moving the selected row of the process table.
//!
//! The table's selection is a `ratatui` table state; these functions hand it
//! an index, move it, and read it back. Until the table is drawn the number
//! of rows is not known, so moving past either end is corrected when the
//! table is next drawn.

use vstd::prelude::*;
use ratatui::widgets::TableState;

verus! {

/// The row selected after moving down from `selected`: the next row, or the
/// first one where none is selected (the index saturates at `usize::MAX`).
pub open spec fn next_row(selected: Option<usize>) -> usize {
    match selected {
        Some(i) => if i == usize::MAX { i } else { (i + 1) as usize },
        None => 0,
    }
}

/// The row selected after moving up from `selected`: the previous row
/// (staying at `0`), or the last one where none is selected.
pub open spec fn previous_row(selected: Option<usize>) -> usize {
    match selected {
        Some(i) => if i == 0 { 0 } else { (i - 1) as usize },
        None => usize::MAX,
    }
}

/// Moves the selection down one row.
///
/// Trusted: calls `TableState::select_next` of ratatui-widgets, which selects
/// `selected.map_or(0, |i| i.saturating_add(1))`.
#[verifier::external_body]
pub fn select_next(selected: Option<usize>) -> (r: Option<usize>)
    ensures
        r == Some(next_row(selected)),
{
    let mut state = TableState::default().with_selected(selected);
    state.select_next();
    state.selected()
}

/// Moves the selection up one row.
///
/// Trusted: calls `TableState::select_previous` of ratatui-widgets, which
/// selects `selected.map_or(usize::MAX, |i| i.saturating_sub(1))`.
#[verifier::external_body]
pub fn select_previous(selected: Option<usize>) -> (r: Option<usize>)
    ensures
        r == Some(previous_row(selected)),
{
    let mut state = TableState::default().with_selected(selected);
    state.select_previous();
    state.selected()
}

/// Selects the first row.
///
/// Trusted: calls `TableState::select_first` of ratatui-widgets, which
/// selects row `0` whatever was selected.
#[verifier::external_body]
pub fn select_first(selected: Option<usize>) -> (r: Option<usize>)
    ensures
        r == Some(0usize),
{
    let mut state = TableState::default().with_selected(selected);
    state.select_first();
    state.selected()
}

/// Selects the last row.
///
/// Trusted: calls `TableState::select_last` of ratatui-widgets, which selects
/// row `usize::MAX` (the drawn table corrects it to its last row) whatever
/// was selected.
#[verifier::external_body]
pub fn select_last(selected: Option<usize>) -> (r: Option<usize>)
    ensures
        r == Some(usize::MAX),
{
    let mut state = TableState::default().with_selected(selected);
    state.select_last();
    state.selected()
}

} // verus!
