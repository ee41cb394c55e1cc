//! What keys and mouse clicks do.
use vstd::prelude::*;
use crate::actions;
use crate::app;
use crate::app::{App, Pane, Rect, RESTART_COL_WIDTH, TABLE_HEADER_ROWS};
use crate::confirm;
use crate::rows;
use crate::table;

verus! {

/// A key press.
#[derive(Debug, Clone, Copy, PartialEq, Eq, Structural)]
pub enum Key {
    Enter,
    Esc,
    Backspace,
    Up,
    Down,
    PageUp,
    PageDown,
    Char(char),
    Other,
}

/// A mouse event: whether the left button went down, and where.
#[derive(Debug, Clone, Copy, PartialEq, Eq, Structural)]
pub struct MouseEvent {
    pub left_down: bool,
    pub column: u16,
    pub row: u16,
}

/// What is left to do after a key or a click.
#[derive(Debug, Clone, Copy, PartialEq, Eq, Structural)]
pub enum Step {
    Quit,
    Stay,
    RequestRestart,
    RequestAdopt,
    StartSelected,
    StartAll,
    Confirm,
    OpenBrowser,
    /// Whether the process id is wanted rather than the port.
    Copy(bool),
    OpenEditor,
}

// ------------------------------------------------------------------ meaning

/// The panel with a pane opened, or closed when it was open.
pub open spec fn toggled(a: app::AppView, pane: Pane) -> app::AppView {
    app::AppView {
        log_scroll: 0,
        pane: if a.pane == Some(pane) {
            None
        } else {
            Some(pane)
        },
        ..a
    }
}

/// The panel after a key while the filter is edited.
pub open spec fn filter_keyed(a: app::AppView, key: Key) -> app::AppView {
    rows::built(
        match key {
            Key::Enter => app::AppView { filter_editing: false, ..a },
            Key::Esc => app::AppView { filter_editing: false, filter: Seq::empty(), ..a },
            Key::Backspace => app::AppView {
                filter: if a.filter.len() > 0 {
                    a.filter.drop_last()
                } else {
                    a.filter
                },
                ..a
            },
            Key::Char(c) => app::AppView { filter: a.filter.push(c), ..a },
            _ => a,
        },
    )
}

/// The panel after Esc: it cancels the pending action, else closes the pane, else clears the
/// filter.
pub open spec fn escaped(a: app::AppView) -> app::AppView {
    if a.pending is Some {
        app::AppView { pending: None, ..a }.say("cancelled"@)
    } else if a.pane is Some {
        app::AppView { pane: None, ..a }
    } else {
        rows::built(app::AppView { filter: Seq::empty(), ..a })
    }
}

/// The panel after a key that is a character.
pub open spec fn char_keyed(a: app::AppView, c: char) -> (app::AppView, Step) {
    match c {
        'q' => (a, Step::Quit),
        '/' => (app::AppView { filter_editing: true, ..a }, Step::Stay),
        'l' => (toggled(a, Pane::Logs), Step::Stay),
        'u' => (toggled(a, Pane::Usage), Step::Stay),
        'v' => (toggled(a, Pane::EnvDiff), Step::Stay),
        'd' => (toggled(a, Pane::Details), Step::Stay),
        'm' => (toggled(a, Pane::Events), Step::Stay),
        'k' => (actions::kill_requested(a), Step::Stay),
        'K' => (actions::stack_requested(a, app::PendingView::StackStop), Step::Stay),
        'r' => (a, Step::RequestRestart),
        'R' => (actions::stack_requested(a, app::PendingView::StackRestart), Step::Stay),
        'a' => (a, Step::RequestAdopt),
        's' => (a, Step::StartSelected),
        'S' => (a, Step::StartAll),
        'y' => (a, Step::Confirm),
        'o' => (a, Step::OpenBrowser),
        'c' => (a, Step::Copy(false)),
        'C' => (a, Step::Copy(true)),
        'e' => (a, Step::OpenEditor),
        _ => (a, Step::Stay),
    }
}

/// The panel after a key, and what is left to do.
pub open spec fn keyed(a: app::AppView, key: Key) -> (app::AppView, Step) {
    if a.filter_editing {
        (filter_keyed(a, key), Step::Stay)
    } else {
        match key {
            Key::Up => (app::AppView { table: table::previous_of(a.table), ..a }, Step::Stay),
            Key::Down => (app::AppView { table: table::next_of(a.table), ..a }, Step::Stay),
            Key::PageUp => (
                app::AppView { log_scroll: (a.log_scroll + 5) as usize, ..a },
                Step::Stay,
            ),
            Key::PageDown => (
                app::AppView {
                    log_scroll: if a.log_scroll >= 5 {
                        (a.log_scroll - 5) as usize
                    } else {
                        0
                    },
                    ..a
                },
                Step::Stay,
            ),
            Key::Esc => (escaped(a), Step::Stay),
            Key::Char(c) => char_keyed(a, c),
            _ => (a, Step::Stay),
        }
    }
}

/// Whether the sides of a part of the screen are coordinates.
pub open spec fn on_screen(area: Rect) -> bool {
    area.x + area.width <= u16::MAX && area.y + area.height <= u16::MAX && area.y
        + TABLE_HEADER_ROWS <= u16::MAX
}

/// The row of the table under a place on the screen; the border and the header are no rows.
pub open spec fn row_under(a: app::AppView, column: u16, row: u16) -> Option<int> {
    let area = a.table_area;
    let bottom = if area.height >= 1 {
        area.y + area.height - 1
    } else {
        area.y as int
    };
    let index = a.table.offset + row - area.y - TABLE_HEADER_ROWS;
    if area.x <= column < area.x + area.width && area.y + TABLE_HEADER_ROWS <= row < bottom
        && index < a.rows.len() {
        Some(index)
    } else {
        None
    }
}

/// The first column of the restart column, which ends before the border.
pub open spec fn restart_column(area: Rect) -> int {
    if area.width >= RESTART_COL_WIDTH + 1 {
        area.x + area.width - (RESTART_COL_WIDTH + 1)
    } else {
        area.x as int
    }
}

/// The panel after a mouse event, and what is left to do: a left click on a row selects it,
/// and restarts it when it is in the restart column.
pub open spec fn clicked(a: app::AppView, ev: MouseEvent) -> (app::AppView, Step) {
    if !ev.left_down {
        (a, Step::Stay)
    } else {
        match row_under(a, ev.column, ev.row) {
            None => (a, Step::Stay),
            Some(i) => (
                app::AppView {
                    table: table::TableState { selected: Some(i as usize), ..a.table },
                    ..a
                },
                if ev.column >= restart_column(a.table_area) {
                    Step::RequestRestart
                } else {
                    Step::Stay
                },
            ),
        }
    }
}

// ------------------------------------------------------------------ laws

/// A pane that is toggled twice is as it was, where it was not hidden by another.
pub proof fn toggling_twice_restores(a: app::AppView, pane: Pane)
    requires
        a.pane is None || a.pane == Some(pane),
    ensures
        toggled(toggled(a, pane), pane).pane == a.pane,
{
}

/// Only `q` quits, and not while the filter is edited.
pub proof fn only_q_quits(a: app::AppView, key: Key)
    ensures
        keyed(a, key).1 is Quit <==> !a.filter_editing && key == Key::Char('q'),
{
}

/// A key never touches the services, the processes that were signalled, or those that wait to
/// be respawned: it takes a confirmation, or a start, for that.
pub proof fn keys_do_no_harm(a: app::AppView, key: Key)
    ensures
        keyed(a, key).0.manager == a.manager,
        keyed(a, key).0.term_sent == a.term_sent,
        keyed(a, key).0.respawns == a.respawns,
        keyed(a, key).0.respawn_watches == a.respawn_watches,
{
}

/// Nothing irreversible runs before `y` confirms it: any other key, any key while the filter is
/// edited, and `y` with nothing pending leave the services, the signalled processes and the
/// respawns as they are, and no signal, supervisor or container call is due after them.
pub proof fn nothing_runs_before_y(a: app::AppView, key: Key)
    requires
        key != Key::Char('y') || a.filter_editing || a.pending is None,
    ensures
        keyed(a, key).0.manager == a.manager,
        keyed(a, key).0.term_sent == a.term_sent,
        keyed(a, key).0.respawns == a.respawns,
        keyed(a, key).0.respawn_watches == a.respawn_watches,
        keyed(a, key).1 is Confirm ==> confirm::calls_of(keyed(a, key).0).len() == 0,
{
}

/// A key leaves the pending action as it is, apart from `k`, `K`, `R` and Esc.
pub proof fn other_keys_keep_what_is_pending(a: app::AppView, key: Key)
    requires
        a.filter_editing || (key != Key::Esc && key != Key::Char('k') && key != Key::Char('K')
            && key != Key::Char('R')),
    ensures
        keyed(a, key).0.pending == a.pending,
{
}

/// A click on the restart column is a click on the row and then `r`.
pub proof fn clicking_restart_is_pressing_r(a: app::AppView, ev: MouseEvent)
    requires
        !a.filter_editing,
        clicked(a, ev).1 is RequestRestart,
    ensures
        keyed(clicked(a, ev).0, Key::Char('r')) == clicked(a, ev),
        clicked(a, ev).0.selected_row() is Some,
{
}

/// Esc cancels what is pending and does nothing else but say so.
pub proof fn esc_cancels(a: app::AppView)
    requires
        !a.filter_editing,
        a.pending is Some,
    ensures
        keyed(a, Key::Esc).0 == (app::AppView { pending: None, ..a }).say("cancelled"@),
{
}

// ------------------------------------------------------------------ execution

impl App {
    /// Opens a pane, or closes it when it is open.
    pub fn toggle_pane(&mut self, pane: Pane)
        requires
            old(self).wf(),
        ensures
            final(self)@ == toggled(old(self)@, pane),
            final(self).wf(),
    {
        self.log_scroll = 0;
        let open = match self.pane {
            Some(p) => p == pane,
            None => false,
        };
        self.pane = if open {
            None
        } else {
            Some(pane)
        };
    }

    fn on_filter_key(&mut self, key: Key)
        requires
            old(self).wf(),
        ensures
            final(self)@ == filter_keyed(old(self)@, key),
            final(self).wf(),
    {
        match key {
            Key::Enter => {
                self.filter_editing = false;
            },
            Key::Esc => {
                self.filter_editing = false;
                self.filter = String::new();
                assert(self.filter@ =~= Seq::<char>::empty());
            },
            Key::Backspace => {
                let _ = self.filter.pop();
            },
            Key::Char(c) => {
                self.filter.push(c);
            },
            _ => {},
        }
        self.build_rows();
    }

    fn on_esc(&mut self)
        requires
            old(self).wf(),
        ensures
            final(self)@ == escaped(old(self)@),
            final(self).wf(),
    {
        if self.pending.is_some() {
            self.pending = None;
            self.say("cancelled".to_owned());
        } else if self.pane.is_some() {
            self.pane = None;
        } else {
            self.filter = String::new();
            assert(self.filter@ =~= Seq::<char>::empty());
            self.build_rows();
        }
    }

    fn on_char(&mut self, c: char) -> (r: Step)
        requires
            old(self).wf(),
        ensures
            final(self)@ == char_keyed(old(self)@, c).0,
            r == char_keyed(old(self)@, c).1,
            final(self).wf(),
    {
        match c {
            'q' => Step::Quit,
            '/' => {
                self.filter_editing = true;
                Step::Stay
            },
            'l' => {
                self.toggle_pane(Pane::Logs);
                Step::Stay
            },
            'u' => {
                self.toggle_pane(Pane::Usage);
                Step::Stay
            },
            'v' => {
                self.toggle_pane(Pane::EnvDiff);
                Step::Stay
            },
            'd' => {
                self.toggle_pane(Pane::Details);
                Step::Stay
            },
            'm' => {
                self.toggle_pane(Pane::Events);
                Step::Stay
            },
            'k' => {
                self.request_kill();
                Step::Stay
            },
            'K' => {
                self.request_stack_stop();
                Step::Stay
            },
            'r' => Step::RequestRestart,
            'R' => {
                self.request_stack_restart();
                Step::Stay
            },
            'a' => Step::RequestAdopt,
            's' => Step::StartSelected,
            'S' => Step::StartAll,
            'y' => Step::Confirm,
            'o' => Step::OpenBrowser,
            'c' => Step::Copy(false),
            'C' => Step::Copy(true),
            'e' => Step::OpenEditor,
            _ => Step::Stay,
        }
    }

    /// Takes a key press in; see [`keyed`].
    pub fn on_key(&mut self, key: Key) -> (r: Step)
        requires
            old(self).wf(),
            key is PageUp && !old(self)@.filter_editing ==> old(self)@.log_scroll <= usize::MAX - 5,
        ensures
            final(self)@ == keyed(old(self)@, key).0,
            r == keyed(old(self)@, key).1,
            final(self)@.manager == old(self)@.manager,
            final(self)@.term_sent == old(self)@.term_sent,
            final(self)@.respawns == old(self)@.respawns,
            final(self)@.respawn_watches == old(self)@.respawn_watches,
            r is Confirm <==> !old(self)@.filter_editing && key == Key::Char('y'),
            r is Confirm && old(self)@.pending is None ==> confirm::calls_of(final(self)@).len()
                == 0,
            final(self).wf(),
    {
        if self.filter_editing {
            self.on_filter_key(key);
            return Step::Stay;
        }
        match key {
            Key::Up => {
                self.table.select_previous();
                Step::Stay
            },
            Key::Down => {
                self.table.select_next();
                Step::Stay
            },
            Key::PageUp => {
                self.log_scroll = self.log_scroll + 5;
                Step::Stay
            },
            Key::PageDown => {
                self.log_scroll = self.log_scroll.saturating_sub(5);
                Step::Stay
            },
            Key::Esc => {
                self.on_esc();
                Step::Stay
            },
            Key::Char(c) => self.on_char(c),
            _ => Step::Stay,
        }
    }

    /// Left-click on the ↻ column restarts that row; anywhere else in the table just selects
    /// the row, mirroring arrow-key navigation.
    pub fn on_mouse(&mut self, ev: MouseEvent) -> (r: Step)
        requires
            old(self).wf(),
            ev.left_down ==> on_screen(old(self)@.table_area) && old(self)@.table.offset
                <= usize::MAX - u16::MAX,
        ensures
            final(self)@ == clicked(old(self)@, ev).0,
            r == clicked(old(self)@, ev).1,
            final(self).wf(),
    {
        if !ev.left_down {
            return Step::Stay;
        }
        let area = self.table_area;
        if ev.column < area.x || ev.column >= area.x + area.width || ev.row < area.y
            + TABLE_HEADER_ROWS || ev.row >= area.y + area.height.saturating_sub(1) {
            return Step::Stay;
        }
        let row_index: usize = self.table.offset + (ev.row - area.y - TABLE_HEADER_ROWS) as usize;
        if row_index >= self.rows.len() {
            return Step::Stay;
        }
        self.table.select(row_index);
        let restart_col_start: u16 = area.x + area.width.saturating_sub(RESTART_COL_WIDTH + 1);
        if ev.column >= restart_col_start {
            Step::RequestRestart
        } else {
            Step::Stay
        }
    }
}

} // verus!
