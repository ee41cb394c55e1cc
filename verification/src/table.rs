//! The state of the process table: which row is selected and which is the first on screen.
use vstd::prelude::*;

verus! {

/// Which row is selected, if any, and the first row that is displayed.
#[derive(Debug, Clone, Copy, PartialEq, Eq, Structural)]
pub struct TableState {
    pub selected: Option<usize>,
    pub offset: usize,
}

/// `ratatui::widgets::TableState::select`: the index becomes the selected one; with none the
/// first row displayed becomes the first of all.
#[verifier::external_body]
fn ratatui_select(selected: Option<usize>, offset: usize, index: Option<usize>) -> (r: (
    Option<usize>,
    usize,
))
    ensures
        r.0 == index,
        r.1 == (if index is None {
            0
        } else {
            offset
        }),
{
    let mut t = ratatui::widgets::TableState::new().with_offset(offset).with_selected(selected);
    t.select(index);
    (t.selected(), t.offset())
}

/// `ratatui::widgets::TableState::select_next`: the index after the selected one, or the
/// first when none is selected; the last index there is stays. The first row displayed stays.
#[verifier::external_body]
fn ratatui_select_next(selected: Option<usize>, offset: usize) -> (r: (Option<usize>, usize))
    ensures
        r.0 == Some(
            match selected {
                Some(i) => if i < usize::MAX {
                    (i + 1) as usize
                } else {
                    i
                },
                None => 0,
            },
        ),
        r.1 == offset,
{
    let mut t = ratatui::widgets::TableState::new().with_offset(offset).with_selected(selected);
    t.select_next();
    (t.selected(), t.offset())
}

/// `ratatui::widgets::TableState::select_previous`: the index before the selected one, or the
/// last index there is when none is selected; zero stays. The first row displayed stays.
#[verifier::external_body]
fn ratatui_select_previous(selected: Option<usize>, offset: usize) -> (r: (Option<usize>, usize))
    ensures
        r.0 == Some(
            match selected {
                Some(i) => if i > 0 {
                    (i - 1) as usize
                } else {
                    i
                },
                None => usize::MAX,
            },
        ),
        r.1 == offset,
{
    let mut t = ratatui::widgets::TableState::new().with_offset(offset).with_selected(selected);
    t.select_previous();
    (t.selected(), t.offset())
}

/// The table with the row after the selected one selected.
pub open spec fn next_of(t: TableState) -> TableState {
    TableState {
        selected: Some(
            match t.selected {
                Some(i) => if i < usize::MAX {
                    (i + 1) as usize
                } else {
                    i
                },
                None => 0,
            },
        ),
        ..t
    }
}

/// The table with the row before the selected one selected. With none selected it is the last
/// index there is, which names no row until the table is brought in line with its rows.
pub open spec fn previous_of(t: TableState) -> TableState {
    TableState {
        selected: Some(
            match t.selected {
                Some(i) => if i > 0 {
                    (i - 1) as usize
                } else {
                    i
                },
                None => usize::MAX,
            },
        ),
        ..t
    }
}

impl Default for TableState {
    fn default() -> (r: Self)
        ensures
            r == (TableState { selected: None, offset: 0 }),
    {
        TableState { selected: None, offset: 0 }
    }
}

impl TableState {
    /// Selects a row.
    pub fn select(&mut self, index: usize)
        ensures
            *final(self) == (TableState { selected: Some(index), ..*old(self) }),
    {
        let (selected, offset) = ratatui_select(self.selected, self.offset, Some(index));
        self.selected = selected;
        self.offset = offset;
    }

    /// Selects the next row, or the first.
    pub fn select_next(&mut self)
        ensures
            *final(self) == next_of(*old(self)),
    {
        let (selected, offset) = ratatui_select_next(self.selected, self.offset);
        self.selected = selected;
        self.offset = offset;
    }

    /// Selects the row before.
    pub fn select_previous(&mut self)
        ensures
            *final(self) == previous_of(*old(self)),
    {
        let (selected, offset) = ratatui_select_previous(self.selected, self.offset);
        self.selected = selected;
        self.offset = offset;
    }
}

} // verus!
