//! What is drawn: the texts of the table, the panes, the footer and the confirmation.
use std::collections::VecDeque;
use vstd::prelude::*;
use crate::actions;
use crate::app;
use crate::app::{App, Pane, Rect, Row, RowKind, RESTART_COL_WIDTH};
use crate::env;
use crate::env::{env_diff, parse_environ};
use crate::split;
use crate::split::{join_strings, starts_with};
use crate::system;
use crate::system::{command_line, process, Lookup, Process};
use crate::text;
use crate::text::{
    chars_of, decimal_string, is_text, push_decimal, push_text, signed_string, strings,
};

verus! {

broadcast use vstd::std_specs::hash::group_hash_axioms;

/// The height of the pane below the table.
pub const PANE_HEIGHT: u16 = 12;

/// The width of the confirmation.
pub const MODAL_WIDTH: u16 = 60;

/// How a text is coloured.
#[derive(Debug, Clone, Copy, PartialEq, Eq, Structural)]
pub enum Tone {
    Good,
    Busy,
    Bad,
    Dim,
    Plain,
    Accent,
}

/// How much room a column or a part of the screen takes.
#[derive(Debug, Clone, Copy, PartialEq, Eq, Structural)]
pub enum Extent {
    Exactly(u16),
    AtLeast(u16),
}

/// A cell of the table.
pub struct Cell {
    pub text: String,
    pub tone: Tone,
}

/// What a [`Cell`] shows.
pub ghost struct CellView {
    pub text: Seq<char>,
    pub tone: Tone,
}

impl View for Cell {
    type V = CellView;

    open spec fn view(&self) -> CellView {
        CellView { text: self.text@, tone: self.tone }
    }
}

/// What the cells of a row show.
pub open spec fn cell_views(v: Seq<Cell>) -> Seq<CellView> {
    Seq::new(v.len(), |i: int| v[i]@)
}

/// The table: its title, its heads and the cells of its rows.
pub struct TablePane {
    pub title: String,
    pub header: Vec<String>,
    pub rows: Vec<Vec<Cell>>,
}

/// What stands in the pane below the table.
pub enum PaneContent {
    Text(TextPane),
    /// A sparkline: its title and its samples.
    Spark { title: String, samples: Vec<u64> },
}

/// The confirmation: where it stands and its lines.
pub struct Modal {
    pub area: Rect,
    pub lines: Vec<String>,
}

/// A pane of text: its title and its lines.
pub struct TextPane {
    pub title: String,
    pub lines: Vec<String>,
}

// ------------------------------------------------------------------ meaning

/// How a status given in lowercase is coloured.
pub open spec fn tone(s: Seq<char>) -> Tone {
    if s == "up"@ || s == "listen"@ || split::begins(s, "up "@) {
        Tone::Good
    } else if s == "starting"@ || s == "restarting"@ {
        Tone::Busy
    } else if s == "down"@ || s == "crashed"@ || s == "conflict"@ {
        Tone::Bad
    } else {
        Tone::Dim
    }
}

/// The mark of the kind of a row.
pub open spec fn badge(kind: app::RowKindView) -> Seq<char> {
    match kind {
        app::RowKindView::Service(_) => "[svc] "@,
        app::RowKindView::Process => "[ext] "@,
        app::RowKindView::Container { .. } => "[docker] "@,
    }
}

/// The cells of a row.
pub open spec fn cells(r: app::RowView) -> Seq<Seq<char>> {
    seq![
        (match r.port {
            Some(p) => text::decimal(p as nat),
            None => "-"@,
        }),
        (match r.pid {
            Some(p) => text::signed_decimal(p as int),
            None => "-"@,
        }),
        badge(r.kind) + r.name,
        r.status,
        r.user,
        actions::or_dash(r.cmd),
        "↻ "@ + actions::strategy_label(r.strategy),
    ]
}

/// The cells of a row with their colours: the status has one of its own, and the restart column
/// stands out.
pub open spec fn coloured(r: app::RowView) -> Seq<CellView> {
    Seq::new(
        cells(r).len(),
        |i: int|
            CellView {
                text: cells(r)[i],
                tone: if i == 3 {
                    tone(text::lowercase(r.status))
                } else if i == 6 {
                    Tone::Accent
                } else {
                    Tone::Plain
                },
            },
    )
}

/// The widths of the columns; the command takes what is left.
pub open spec fn widths() -> Seq<Extent> {
    seq![
        Extent::Exactly(6),
        Extent::Exactly(8),
        Extent::Exactly(20),
        Extent::Exactly(12),
        Extent::Exactly(10),
        Extent::AtLeast(20),
        Extent::Exactly(RESTART_COL_WIDTH),
    ]
}

/// The heights of the parts of the screen: the table, the pane when one is open, and the
/// footer.
pub open spec fn heights(a: app::AppView) -> Seq<Extent> {
    if a.pane is Some {
        seq![Extent::AtLeast(8), Extent::Exactly(PANE_HEIGHT), Extent::Exactly(1)]
    } else {
        seq![Extent::AtLeast(8), Extent::Exactly(1)]
    }
}

/// The heads of the columns.
pub open spec fn heads() -> Seq<Seq<char>> {
    seq!["PORT"@, "PID"@, "NAME"@, "STATUS"@, "USER"@, "COMMAND"@, "RESTART"@]
}

/// The title of the table.
pub open spec fn table_title(filter: Seq<char>) -> Seq<char> {
    if filter.len() == 0 {
        " dev-panel "@
    } else {
        " dev-panel — filter: "@ + filter + " "@
    }
}

/// How far back a window of `visible` lines on `total` can be scrolled at most, `scroll` at
/// most.
pub open spec fn clamped_scroll(scroll: usize, total: nat, visible: nat) -> int {
    let room: int = if total >= visible {
        total - visible
    } else {
        0
    };
    if scroll <= room {
        scroll as int
    } else {
        room
    }
}

/// The lines that a window of `visible` lines shows when it is scrolled back by `scroll`: the
/// last ones that the scrolling leaves.
pub open spec fn window(
    all: Seq<Seq<char>>,
    scroll: int,
    visible: nat,
) -> Seq<Seq<char>> {
    let from: int = if all.len() >= visible + scroll {
        all.len() - (visible + scroll)
    } else {
        0
    };
    let rest = all.skip(from);
    if rest.len() > visible {
        rest.take(visible as int)
    } else {
        rest
    }
}

/// How many lines fit in a pane of a height, within its border.
pub open spec fn visible_lines(height: u16) -> nat {
    if height >= 2 {
        (height - 2) as nat
    } else {
        0
    }
}

/// The service of the selected row.
pub open spec fn selected_service(a: app::AppView) -> Option<usize> {
    match a.selected_row() {
        Some(row) => match row.kind {
            app::RowKindView::Service(i) => Some(i),
            _ => None,
        },
        None => None,
    }
}

/// The title of the log pane.
pub open spec fn logs_title(a: app::AppView) -> Seq<char> {
    match selected_service(a) {
        None => " logs (PgUp/PgDn scroll) "@,
        Some(i) => " logs: "@ + a.manager.services[i as int].cfg.name + " ("@ + text::decimal(
            a.manager.services[i as int].logs.len(),
        ) + " lines) "@,
    }
}

/// The panel after its log pane was drawn: it is not scrolled back further than there are
/// lines.
pub open spec fn logs_drawn(a: app::AppView, height: u16) -> app::AppView {
    match selected_service(a) {
        None => a,
        Some(i) => app::AppView {
            log_scroll: clamped_scroll(
                a.log_scroll,
                a.manager.services[i as int].logs.len(),
                visible_lines(height),
            ) as usize,
            ..a
        },
    }
}

/// The lines of the log pane.
pub open spec fn log_lines(a: app::AppView, height: u16) -> Seq<Seq<char>> {
    match selected_service(a) {
        None => seq!["logs are captured for managed services only"@],
        Some(i) => {
            let logs = a.manager.services[i as int].logs;
            window(
                logs,
                clamped_scroll(a.log_scroll, logs.len(), visible_lines(height)),
                visible_lines(height),
            )
        },
    }
}

/// The title of the pane of the event log.
pub open spec fn events_title(a: app::AppView) -> Seq<char> {
    " events ("@ + text::decimal(a.events.len()) + ") "@
}

/// The panel after the pane of the event log was drawn.
pub open spec fn events_drawn(a: app::AppView, height: u16) -> app::AppView {
    app::AppView {
        log_scroll: clamped_scroll(
            a.log_scroll,
            a.events.len(),
            visible_lines(height),
        ) as usize,
        ..a
    }
}

/// The lines of the pane of the event log.
pub open spec fn event_lines(a: app::AppView, height: u16) -> Seq<Seq<char>> {
    window(
        a.events,
        clamped_scroll(a.log_scroll, a.events.len(), visible_lines(height)),
        visible_lines(height),
    )
}

/// The processor history of the selected row and the line about it.
pub open spec fn usage_of(a: app::AppView) -> Option<(Seq<u64>, Seq<char>)> {
    match a.selected_row() {
        Some(row) => match row.pid {
            Some(pid) => if a.cpu_hist.contains_key(pid) {
                Some(
                    (
                        a.cpu_hist[pid],
                        match system::process_of(a.system, pid) {
                            Some(p) => row.name + " — cpu "@ + p.cpu_text + "%  mem "@
                                + text::decimal(p.memory as nat / (1024 * 1024)) + " MB"@,
                            None => row.name,
                        },
                    ),
                )
            } else {
                None
            },
            None => None,
        },
        None => None,
    }
}

/// The title of the usage pane: the line about the process and how far its history goes back,
/// a sample being taken every other second.
pub open spec fn usage_title_text(summary: Seq<char>, samples: nat) -> Seq<char> {
    " "@ + summary + " — cpu% last "@ + text::decimal(samples * 2) + "s "@
}

/// A time in hours, minutes and seconds, without the hours, or the hours and minutes, that are
/// zero.
pub open spec fn duration_text(secs: nat) -> Seq<char> {
    let h = secs / 3600;
    let m = (secs % 3600) / 60;
    let s = secs % 60;
    if h > 0 {
        text::decimal(h) + "h"@ + text::decimal(m) + "m"@ + text::decimal(s) + "s"@
    } else if m > 0 {
        text::decimal(m) + "m"@ + text::decimal(s) + "s"@
    } else {
        text::decimal(s) + "s"@
    }
}

/// What is shown of a process that is a child of another.
pub open spec fn child_text(c: system::ProcessView, parent: i32) -> Option<Seq<char>> {
    if c.parent == Some(parent) {
        Some(text::signed_decimal(c.pid as int) + " ("@ + c.name + ")"@)
    } else {
        None
    }
}

/// The children of a process, in the order of the process table.
pub open spec fn children_of(a: app::AppView, pid: i32) -> Seq<Seq<char>> {
    split::filter_map(a.system, |c: system::ProcessView| child_text(c, pid))
}

/// The lines of the details pane.
pub open spec fn details_of(a: app::AppView, lookup: system::LookupView) -> Seq<Seq<char>> {
    match a.selected_row() {
        None => seq!["nothing selected"@],
        Some(row) => match row.pid {
            None => seq![row.name + ": no pid (container or unresolved)"@],
            Some(pid) => match system::process_of(a.system, pid) {
                None => seq!["process is gone"@],
                Some(p) => seq![
                    "name: "@ + row.name,
                    "pid: "@ + text::signed_decimal(pid as int),
                    "cmd: "@ + (if system::command_of(p, lookup).len() == 0 {
                        "-"@
                    } else {
                        split::join(system::command_of(p, lookup), " "@)
                    }),
                    "cwd: "@ + (match system::cwd_of(Some(p), lookup) {
                        Some(d) => d,
                        None => "-"@,
                    }),
                    "uptime: "@ + duration_text(p.run_time as nat),
                    "children: "@ + (if children_of(a, pid).len() == 0 {
                        "none"@
                    } else {
                        split::join(children_of(a, pid), ", "@)
                    }),
                ],
            },
        },
    }
}

/// The title of the details pane.
pub open spec fn details_title(a: app::AppView) -> Seq<char> {
    " details for selected row: "@ + (match a.selected_row() {
        Some(row) => row.name,
        None => "-"@,
    }) + " (pane below table, not inline) "@
}

/// Whether these are the lines of the environment pane: what differs between the selected
/// process's environment and the shell's, in order, or why nothing is shown.
pub open spec fn shows_env_diff(
    a: app::AppView,
    ours: Seq<(Seq<char>, Seq<char>)>,
    lines: Seq<Seq<char>>,
) -> bool {
    match a.selected_row() {
        None => lines == seq!["select a row with a pid"@],
        Some(row) => match row.pid {
            None => lines == seq!["select a row with a pid"@],
            Some(pid) => match system::process_of(a.system, pid) {
                None => lines == seq!["process is gone"@],
                Some(p) => {
                    let theirs = env::environ_pairs(p.environ);
                    if theirs.len() == 0 {
                        lines == seq!["no env readable for this process"@]
                    } else if env::diff_lines(theirs, ours).len() == 0 {
                        lines == seq!["env matches current shell"@]
                    } else {
                        env::in_order(lines) && lines.to_multiset() == env::diff_lines(
                            theirs,
                            ours,
                        ).to_multiset()
                    }
                },
            },
        },
    }
}

/// The footer: the filter while it is edited, else the last message and the keys.
pub open spec fn footer_text(a: app::AppView) -> Seq<char> {
    if a.filter_editing {
        " /"@ + a.filter + "▌  Enter apply · Esc clear"@
    } else {
        " "@ + a.message
            + "  |  k kill  r/click↻ restart  s/S start  l logs  d details (below)  u cpu  v env  o open  c/C copy  e edit  / filter  q quit"@
    }
}

/// The lines of the confirmation.
pub open spec fn modal_text(a: app::AppView) -> Option<Seq<Seq<char>>> {
    match actions::question(a) {
        None => None,
        Some(q) => Some(seq![q + "  y = confirm, Esc = cancel"@] + actions::preview(a)),
    }
}

/// A part of the screen of a size, in the middle of another.
pub open spec fn centred(area: Rect, w: u16, h: u16) -> Rect {
    Rect {
        x: if area.width >= w {
            (area.x + (area.width - w) / 2) as u16
        } else {
            area.x
        },
        y: if area.height >= h {
            (area.y + (area.height - h) / 2) as u16
        } else {
            area.y
        },
        width: if w <= area.width {
            w
        } else {
            area.width
        },
        height: if h <= area.height {
            h
        } else {
            area.height
        },
    }
}

/// Whether this is what the pane below the table shows.
pub open spec fn shows_pane(
    a: app::AppView,
    height: u16,
    lookup: system::LookupView,
    ours: Seq<(Seq<char>, Seq<char>)>,
    shown: Option<PaneContent>,
) -> bool {
    match a.pane {
        None => shown is None,
        Some(Pane::Logs) => shown matches Some(PaneContent::Text(t)) && t.title@ == logs_title(a)
            && text::texts(t.lines@) == log_lines(a, height),
        Some(Pane::Events) => shown matches Some(PaneContent::Text(t)) && t.title@ == events_title(
            a,
        ) && text::texts(t.lines@) == event_lines(a, height),
        Some(Pane::Usage) => match usage_of(a) {
            Some((hist, summary)) => shown matches Some(PaneContent::Spark { title, samples })
                && title@ == usage_title_text(summary, hist.len()) && samples@ == hist,
            None => shown matches Some(PaneContent::Text(t)) && t.title@ == " usage "@
                && text::texts(t.lines@) == seq!["select a row with a pid"@],
        },
        Some(Pane::EnvDiff) => shown matches Some(PaneContent::Text(t)) && t.title@
            == " env diff (v proc vs shell) "@ && shows_env_diff(a, ours, text::texts(t.lines@)),
        Some(Pane::Details) => shown matches Some(PaneContent::Text(t)) && t.title@
            == details_title(a) && text::texts(t.lines@) == details_of(a, lookup),
    }
}

/// The panel after the pane below the table was drawn.
pub open spec fn pane_drawn(a: app::AppView, height: u16) -> app::AppView {
    match a.pane {
        Some(Pane::Logs) => logs_drawn(a, height),
        Some(Pane::Events) => events_drawn(a, height),
        _ => a,
    }
}

// ------------------------------------------------------------------ laws

/// A time that is shown has under sixty minutes and under sixty seconds, and adds up.
pub proof fn durations_add_up(secs: nat)
    ensures
        secs == (secs / 3600) * 3600 + ((secs % 3600) / 60) * 60 + secs % 60,
        (secs % 3600) / 60 < 60,
        secs % 60 < 60,
{
}

/// The label of every way to restart fits in its column.
pub proof fn restart_labels_fit(r: app::RowView)
    ensures
        cells(r)[6].len() <= RESTART_COL_WIDTH,
{
    reveal_strlit("↻ ");
    reveal_strlit("managed");
    reveal_strlit("configured");
    reveal_strlit("systemd");
    reveal_strlit("launchd");
    reveal_strlit("docker");
    reveal_strlit("shell");
    reveal_strlit("naive");
    reveal_strlit("unknown");
}

/// The window never shows more lines than fit, shows as many as fit when there are that many,
/// and shows the end of the log when it is not scrolled back.
pub proof fn windows_are_full(all: Seq<Seq<char>>, scroll: usize, visible: nat)
    ensures
        ({
            let s = clamped_scroll(scroll, all.len(), visible);
            let w = window(all, s, visible);
            &&& w.len() == (if all.len() < visible {
                all.len()
            } else {
                visible
            })
            &&& scroll == 0 && all.len() >= visible ==> w == all.skip(all.len() - visible)
        }),
{
    if all.len() >= visible {
        assert(window(all, 0, visible) =~= all.skip(all.len() - visible));
    }
}

// ------------------------------------------------------------------ execution

/// How a status given in lowercase is coloured; see [`tone`].
pub fn tone_of(s: &str) -> (r: Tone)
    ensures
        r == tone(s@),
{
    let chars = chars_of(s);
    if is_text(s, "up") || is_text(s, "listen") || starts_with(chars.as_slice(), "up ") {
        Tone::Good
    } else if is_text(s, "starting") || is_text(s, "restarting") {
        Tone::Busy
    } else if is_text(s, "down") || is_text(s, "crashed") || is_text(s, "conflict") {
        Tone::Bad
    } else {
        Tone::Dim
    }
}

/// How a status is coloured; case does not matter.
pub fn status_style(status: &str) -> (r: Tone)
    ensures
        r == tone(text::lowercase(status@)),
{
    let s = status.to_lowercase();
    tone_of(s.as_str())
}

fn joined(a: &str, b: &str) -> (r: String)
    ensures
        r@ == a@ + b@,
{
    let mut m = a.to_owned();
    push_text(&mut m, b);
    m
}

fn one_line(t: &str) -> (r: Vec<String>)
    ensures
        text::texts(r@) == seq![t@],
{
    let mut out: Vec<String> = Vec::new();
    out.push(t.to_owned());
    assert(text::texts(out@) =~= seq![t@]);
    out
}

/// The cells of a row; see [`cells`].
pub fn row_cells(row: &Row) -> (r: Vec<String>)
    ensures
        text::texts(r@) == cells(row@),
{
    let mut out: Vec<String> = Vec::new();
    out.push(
        match row.port {
            Some(p) => decimal_string(p as u64),
            None => "-".to_owned(),
        },
    );
    out.push(
        match row.pid {
            Some(p) => signed_string(p),
            None => "-".to_owned(),
        },
    );
    let mark = match &row.kind {
        RowKind::Service(_) => "[svc] ",
        RowKind::Process => "[ext] ",
        RowKind::Container { .. } => "[docker] ",
    };
    out.push(joined(mark, row.name.as_str()));
    out.push(row.status.clone());
    out.push(row.user.clone());
    out.push(
        if row.cmd.as_str().is_empty() {
            "-".to_owned()
        } else {
            row.cmd.clone()
        },
    );
    out.push(joined("↻ ", row.strategy.label()));
    assert(text::texts(out@) =~= cells(row@));
    out
}

/// The cells of a row with their colours; see [`coloured`].
pub fn coloured_cells(row: &Row) -> (r: Vec<Cell>)
    ensures
        cell_views(r@) == coloured(row@),
{
    let texts = row_cells(row);
    let status = status_style(row.status.as_str());
    let mut out: Vec<Cell> = Vec::new();
    let n = texts.len();
    assert(n == cells(row@).len()) by {
        assert(text::texts(texts@).len() == cells(row@).len());
    }
    for i in 0..n
        invariant
            n == texts@.len(),
            text::texts(texts@) == cells(row@),
            status == tone(text::lowercase(row@.status)),
            out@.len() == i,
            forall|j: int| 0 <= j < i ==> (#[trigger] out@[j])@ == coloured(row@)[j],
    {
        let tone = if i == 3 {
            status
        } else if i == 6 {
            Tone::Accent
        } else {
            Tone::Plain
        };
        assert(text::texts(texts@)[i as int] == texts@[i as int]@);
        out.push(Cell { text: texts[i].clone(), tone });
    }
    assert(cell_views(out@) =~= coloured(row@));
    out
}

/// The widths of the columns; see [`widths`].
pub fn column_widths() -> (r: Vec<Extent>)
    ensures
        r@ == widths(),
{
    let r = vec![
        Extent::Exactly(6),
        Extent::Exactly(8),
        Extent::Exactly(20),
        Extent::Exactly(12),
        Extent::Exactly(10),
        Extent::AtLeast(20),
        Extent::Exactly(RESTART_COL_WIDTH),
    ];
    assert(r@ =~= widths());
    r
}

/// The heads of the columns; see [`heads`].
pub fn header() -> (r: Vec<String>)
    ensures
        text::texts(r@) == heads(),
{
    let r = strings(&["PORT", "PID", "NAME", "STATUS", "USER", "COMMAND", "RESTART"]);
    assert(text::texts(r@) =~= heads());
    r
}

/// A time in hours, minutes and seconds; see [`duration_text`].
pub fn format_duration(secs: u64) -> (r: String)
    ensures
        r@ == duration_text(secs as nat),
{
    let h: u64 = secs / 3600;
    let m: u64 = (secs % 3600) / 60;
    let s: u64 = secs % 60;
    let mut out = String::new();
    if h > 0 {
        push_decimal(&mut out, h);
        push_text(&mut out, "h");
        push_decimal(&mut out, m);
        push_text(&mut out, "m");
    } else if m > 0 {
        push_decimal(&mut out, m);
        push_text(&mut out, "m");
    }
    push_decimal(&mut out, s);
    push_text(&mut out, "s");
    assert(out@ =~= duration_text(secs as nat));
    out
}

/// A part of the screen of a size, in the middle of another; see [`centred`].
pub fn centered(area: Rect, w: u16, h: u16) -> (r: Rect)
    requires
        area.width >= w ==> area.x + (area.width - w) / 2 <= u16::MAX,
        area.height >= h ==> area.y + (area.height - h) / 2 <= u16::MAX,
    ensures
        r == centred(area, w, h),
{
    Rect {
        x: area.x + area.width.saturating_sub(w) / 2,
        y: area.y + area.height.saturating_sub(h) / 2,
        width: if w <= area.width {
            w
        } else {
            area.width
        },
        height: if h <= area.height {
            h
        } else {
            area.height
        },
    }
}

/// How far a pane of a height is scrolled back, and the lines it then shows.
fn scrolled(all: &VecDeque<String>, scroll: usize, height: u16) -> (r: (usize, Vec<String>))
    ensures
        r.0 == clamped_scroll(scroll, all@.len(), visible_lines(height)),
        text::texts(r.1@) == window(text::texts(all@), r.0 as int, visible_lines(height)),
{
    let visible: usize = height.saturating_sub(2) as usize;
    let total: usize = all.len();
    let room: usize = total.saturating_sub(visible);
    let back: usize = if scroll <= room {
        scroll
    } else {
        room
    };
    let from_top: usize = total.saturating_sub(visible + back);
    let to: usize = if total - from_top > visible {
        from_top + visible
    } else {
        total
    };
    let mut lines: Vec<String> = Vec::new();
    for k in from_top..to
        invariant
            from_top <= to <= all@.len(),
            lines@.len() == k - from_top,
            forall|j: int| 0 <= j < lines@.len() ==> (#[trigger] lines@[j])@ == all@[from_top + j]@,
    {
        lines.push(all[k].clone());
    }
    assert(text::texts(lines@) =~= window(
        text::texts(all@),
        back as int,
        visible_lines(height),
    ));
    (back, lines)
}

impl App {
    /// The title of the table.
    pub fn title(&self) -> (r: String)
        ensures
            r@ == table_title(self@.filter),
    {
        if self.filter.as_str().is_empty() {
            " dev-panel ".to_owned()
        } else {
            let mut out = joined(" dev-panel — filter: ", self.filter.as_str());
            push_text(&mut out, " ");
            out
        }
    }

    /// The heights of the parts of the screen; see [`heights`].
    pub fn sections(&self) -> (r: Vec<Extent>)
        ensures
            r@ == heights(self@),
    {
        let r = if self.pane.is_some() {
            vec![Extent::AtLeast(8), Extent::Exactly(PANE_HEIGHT), Extent::Exactly(1)]
        } else {
            vec![Extent::AtLeast(8), Extent::Exactly(1)]
        };
        assert(r@ =~= heights(self@));
        r
    }

    /// The table, for the part of the screen that it is drawn to, which is kept to tell what is
    /// clicked on.
    pub fn draw_table(&mut self, area: Rect) -> (r: TablePane)
        requires
            old(self).wf(),
        ensures
            final(self)@ == (app::AppView { table_area: area, ..old(self)@ }),
            r.title@ == table_title(old(self)@.filter),
            text::texts(r.header@) == heads(),
            r.rows@.len() == old(self)@.rows.len(),
            forall|i: int|
                0 <= i < r.rows@.len() ==> cell_views((#[trigger] r.rows@[i])@) == coloured(
                    old(self)@.rows[i],
                ),
            final(self).wf(),
    {
        self.table_area = area;
        let mut rows: Vec<Vec<Cell>> = Vec::new();
        let n = self.rows.len();
        for i in 0..n
            invariant
                n == self.rows@.len(),
                self@.rows == old(self)@.rows,
                rows@.len() == i,
                forall|j: int|
                    0 <= j < i ==> cell_views((#[trigger] rows@[j])@) == coloured(
                        old(self)@.rows[j],
                    ),
        {
            assert(self@.rows[i as int] == self.rows@[i as int]@);
            rows.push(coloured_cells(&self.rows[i]));
        }
        TablePane { title: self.title(), header: header(), rows }
    }

    fn service_selected(&self) -> (r: Option<usize>)
        requires
            self.wf(),
        ensures
            r == selected_service(self@),
            r is Some ==> r->0 < self@.manager.services.len(),
    {
        match self.selected_row() {
            Some(row) => {
                assert(app::row_wf(row@, self@.manager.services.len()));
                match row.kind {
                    RowKind::Service(i) => Some(i),
                    _ => None,
                }
            },
            None => None,
        }
    }

    /// The log pane, for a height; see [`log_lines`] and [`logs_drawn`].
    pub fn draw_logs(&mut self, height: u16) -> (r: TextPane)
        requires
            old(self).wf(),
        ensures
            final(self)@ == logs_drawn(old(self)@, height),
            r.title@ == logs_title(old(self)@),
            text::texts(r.lines@) == log_lines(old(self)@, height),
            final(self).wf(),
    {
        let ghost a = self@;
        let i = match self.service_selected() {
            Some(i) => i,
            None => {
                return TextPane {
                    title: " logs (PgUp/PgDn scroll) ".to_owned(),
                    lines: one_line("logs are captured for managed services only"),
                };
            },
        };
        let svc = &self.manager.services[i];
        assert(a.manager.services[i as int] == svc@);
        let total: usize = svc.logs.len();
        let mut title = joined(" logs: ", svc.cfg.name.as_str());
        let (scroll, lines) = scrolled(&svc.logs, self.log_scroll, height);
        self.log_scroll = scroll;
        push_text(&mut title, " (");
        push_decimal(&mut title, total as u64);
        push_text(&mut title, " lines) ");
        TextPane { title, lines }
    }

    /// The pane of the event log, for a height; see [`event_lines`] and [`events_drawn`].
    pub fn draw_events(&mut self, height: u16) -> (r: TextPane)
        requires
            old(self).wf(),
        ensures
            final(self)@ == events_drawn(old(self)@, height),
            r.title@ == events_title(old(self)@),
            text::texts(r.lines@) == event_lines(old(self)@, height),
            final(self).wf(),
    {
        let total: usize = self.events.len();
        let (scroll, lines) = scrolled(&self.events, self.log_scroll, height);
        self.log_scroll = scroll;
        let mut title = " events (".to_owned();
        push_decimal(&mut title, total as u64);
        push_text(&mut title, ") ");
        TextPane { title, lines }
    }

    /// CPU history + one-line summary for the usage sparkline.
    pub fn usage_data(&self) -> (r: Option<(Vec<u64>, String)>)
        ensures
            match r {
                Some((hist, title)) => usage_of(self@) == Some((hist@, title@)),
                None => usage_of(self@) is None,
            },
    {
        let row = match self.selected_row() {
            Some(row) => row,
            None => {
                return None;
            },
        };
        let pid = match row.pid {
            Some(pid) => pid,
            None => {
                return None;
            },
        };
        match self.cpu_hist.get(&pid) {
            None => {
                assert(!self@.cpu_hist.contains_key(pid));
                None
            },
            Some(h) => {
                assert(self@.cpu_hist.contains_key(pid) && self@.cpu_hist[pid] == h@);
                let n = h.len();
                let mut hist: Vec<u64> = Vec::new();
                for k in 0..n
                    invariant
                        n == h@.len(),
                        hist@ == h@.take(k as int),
                {
                    hist.push(h[k]);
                    assert(hist@ =~= h@.take(k + 1));
                }
                assert(hist@ =~= h@);
                let title = match process(&self.system, pid) {
                    Some(p) => {
                        let mut t = joined(row.name.as_str(), " — cpu ");
                        push_text(&mut t, p.cpu_text.as_str());
                        push_text(&mut t, "%  mem ");
                        push_decimal(&mut t, p.memory / (1024 * 1024));
                        push_text(&mut t, " MB");
                        t
                    },
                    None => row.name.clone(),
                };
                Some((hist, title))
            },
        }
    }

    /// The usage pane: the samples and the title; see [`usage_of`] and [`usage_title_text`].
    pub fn draw_usage(&self) -> (r: Option<(Vec<u64>, String)>)
        requires
            self.wf(),
        ensures
            match r {
                Some((hist, title)) => usage_of(self@) matches Some((samples, summary))
                    && hist@ == samples && title@ == usage_title_text(summary, samples.len()),
                None => usage_of(self@) is None,
            },
    {
        match self.usage_data() {
            None => None,
            Some((hist, summary)) => {
                assert(hist@.len() <= app::CPU_HISTORY);
                let mut title = joined(" ", summary.as_str());
                push_text(&mut title, " — cpu% last ");
                push_decimal(&mut title, hist.len() as u64 * 2);
                push_text(&mut title, "s ");
                Some((hist, title))
            },
        }
    }

    fn children(&self, pid: i32) -> (r: Vec<String>)
        ensures
            text::texts(r@) == children_of(self@, pid),
    {
        let ghost all = self@.system;
        let ghost f = |c: system::ProcessView| child_text(c, pid);
        let mut out: Vec<String> = Vec::new();
        let n = self.system.len();
        assert(all.take(0) =~= Seq::<system::ProcessView>::empty());
        assert(text::texts(out@) =~= Seq::<Seq<char>>::empty());
        for k in 0..n
            invariant
                n == self.system@.len(),
                all == system::processes(self.system@),
                f == (|c: system::ProcessView| child_text(c, pid)),
                text::texts(out@) == split::filter_map(all.take(k as int), f),
        {
            let ghost earlier = text::texts(out@);
            proof {
                assert(all.take(k + 1).drop_last() =~= all.take(k as int));
                assert(all.take(k + 1).last() == self.system@[k as int]@);
            }
            let c: &Process = &self.system[k];
            let is_child = match c.parent {
                Some(p) => p == pid,
                None => false,
            };
            if is_child {
                let mut t = signed_string(c.pid);
                push_text(&mut t, " (");
                push_text(&mut t, c.name.as_str());
                push_text(&mut t, ")");
                let ghost tv = t@;
                out.push(t);
                assert(text::texts(out@) =~= earlier.push(tv));
            }
        }
        assert(all.take(n as int) =~= all);
        out
    }

    /// Expandable detail block: full command, cwd, uptime, and child PIDs.
    pub fn details_lines(&self, lookup: &Lookup) -> (r: Vec<String>)
        ensures
            text::texts(r@) == details_of(self@, lookup@),
    {
        let row = match self.selected_row() {
            Some(row) => row,
            None => {
                return one_line("nothing selected");
            },
        };
        let pid = match row.pid {
            Some(pid) => pid,
            None => {
                let t = joined(row.name.as_str(), ": no pid (container or unresolved)");
                return one_line(t.as_str());
            },
        };
        let p = match process(&self.system, pid) {
            Some(p) => p,
            None => {
                return one_line("process is gone");
            },
        };
        let cmd = command_line(p, lookup);
        let cmd_text = if cmd.len() == 0 {
            "-".to_owned()
        } else {
            join_strings(&cmd, " ")
        };
        let cwd = match self.cwd_for(pid, lookup) {
            Some(d) => d,
            None => "-".to_owned(),
        };
        let children = self.children(pid);
        let children_text = if children.len() == 0 {
            "none".to_owned()
        } else {
            join_strings(&children, ", ")
        };
        let uptime = format_duration(p.run_time);
        let pid_text = signed_string(pid);
        let mut out: Vec<String> = Vec::new();
        out.push(joined("name: ", row.name.as_str()));
        out.push(joined("pid: ", pid_text.as_str()));
        out.push(joined("cmd: ", cmd_text.as_str()));
        out.push(joined("cwd: ", cwd.as_str()));
        out.push(joined("uptime: ", uptime.as_str()));
        out.push(joined("children: ", children_text.as_str()));
        assert(text::texts(out@) =~= details_of(self@, lookup@));
        out
    }

    /// The title of the details pane.
    pub fn details_title(&self) -> (r: String)
        ensures
            r@ == details_title(self@),
    {
        let mut out = match self.selected_row() {
            Some(row) => joined(" details for selected row: ", row.name.as_str()),
            None => joined(" details for selected row: ", "-"),
        };
        push_text(&mut out, " (pane below table, not inline) ");
        out
    }

    /// What the selected process inherited vs our shell now.
    pub fn env_diff_lines(&self, ours: &Vec<(String, String)>) -> (r: Vec<String>)
        ensures
            shows_env_diff(self@, env::pairs(ours@), text::texts(r@)),
    {
        let pid = match self.selected_row() {
            Some(row) => match row.pid {
                Some(pid) => pid,
                None => {
                    return one_line("select a row with a pid");
                },
            },
            None => {
                return one_line("select a row with a pid");
            },
        };
        let p = match process(&self.system, pid) {
            Some(p) => p,
            None => {
                return one_line("process is gone");
            },
        };
        let proc_env = parse_environ(&p.environ);
        assert(env::pairs(proc_env@).len() == proc_env@.len());
        if proc_env.len() == 0 {
            return one_line("no env readable for this process");
        }
        let diff = env_diff(&proc_env, ours);
        proof {
            let lines = env::diff_lines(env::pairs(proc_env@), env::pairs(ours@));
            text::texts(diff@).to_multiset_ensures();
            lines.to_multiset_ensures();
            assert(text::texts(diff@).len() == lines.len());
        }
        if diff.len() == 0 {
            one_line("env matches current shell")
        } else {
            diff
        }
    }

    /// The pane below the table, for a height, given what was found out about the selected
    /// process and the shell's environment; see [`shows_pane`] and [`pane_drawn`].
    pub fn draw_pane(
        &mut self,
        height: u16,
        lookup: &Lookup,
        ours: &Vec<(String, String)>,
    ) -> (r: Option<PaneContent>)
        requires
            old(self).wf(),
        ensures
            final(self)@ == pane_drawn(old(self)@, height),
            shows_pane(old(self)@, height, lookup@, env::pairs(ours@), r),
            final(self).wf(),
    {
        let pane = match self.pane {
            Some(p) => p,
            None => {
                return None;
            },
        };
        match pane {
            Pane::Logs => Some(PaneContent::Text(self.draw_logs(height))),
            Pane::Events => Some(PaneContent::Text(self.draw_events(height))),
            Pane::Usage => match self.draw_usage() {
                Some((samples, title)) => Some(PaneContent::Spark { title, samples }),
                None => Some(
                    PaneContent::Text(
                        TextPane {
                            title: " usage ".to_owned(),
                            lines: one_line("select a row with a pid"),
                        },
                    ),
                ),
            },
            Pane::EnvDiff => Some(
                PaneContent::Text(
                    TextPane {
                        title: " env diff (v proc vs shell) ".to_owned(),
                        lines: self.env_diff_lines(ours),
                    },
                ),
            ),
            Pane::Details => Some(
                PaneContent::Text(
                    TextPane {
                        title: self.details_title(),
                        lines: self.details_lines(lookup),
                    },
                ),
            ),
        }
    }

    /// The footer; see [`footer_text`].
    pub fn footer(&self) -> (r: String)
        ensures
            r@ == footer_text(self@),
    {
        if self.filter_editing {
            let mut out = joined(" /", self.filter.as_str());
            push_text(&mut out, "▌  Enter apply · Esc clear");
            out
        } else {
            let mut out = joined(" ", self.message.as_str());
            push_text(
                &mut out,
                "  |  k kill  r/click↻ restart  s/S start  l logs  d details (below)  u cpu  v env  o open  c/C copy  e edit  / filter  q quit",
            );
            out
        }
    }

    /// The lines of the confirmation, when an action is pending; see [`modal_text`].
    pub fn modal_lines(&self) -> (r: Option<Vec<String>>)
        requires
            self.wf(),
        ensures
            match r {
                Some(lines) => modal_text(self@) == Some(text::texts(lines@)),
                None => modal_text(self@) is None,
            },
    {
        match self.describe_pending() {
            None => None,
            Some(q) => {
                let first = joined(q.as_str(), "  y = confirm, Esc = cancel");
                let ghost fv = first@;
                let mut more = self.preview_pending();
                let ghost pv = text::texts(more@);
                more.insert(0, first);
                assert(text::texts(more@) =~= seq![fv] + pv);
                Some(more)
            },
        }
    }

    /// The confirmation, in the middle of the screen, when an action is pending; its height is
    /// that of its lines and its border.
    pub fn draw_modal(&self, screen: Rect) -> (r: Option<Modal>)
        requires
            self.wf(),
            screen.x + screen.width <= u16::MAX,
            screen.y + screen.height <= u16::MAX,
        ensures
            match r {
                Some(m) => modal_text(self@) == Some(text::texts(m.lines@)) && m.area == centred(
                    screen,
                    MODAL_WIDTH,
                    (m.lines@.len() + 2) as u16,
                ),
                None => modal_text(self@) is None,
            },
    {
        match self.modal_lines() {
            None => None,
            Some(lines) => {
                assert(lines@.len() <= 4) by {
                    assert(text::texts(lines@).len() == lines@.len());
                }
                let height: u16 = lines.len() as u16 + 2;
                Some(Modal { area: centered(screen, MODAL_WIDTH, height), lines })
            },
        }
    }
}

} // verus!
