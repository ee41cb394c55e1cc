//! What keys and clicks do and what is drawn.
use vstd::prelude::*;
use crate::actions;
use crate::app;
use crate::app::{Pane, Rect};
use crate::env;
use crate::keys;
use crate::keys::{Key, MouseEvent, Step};
use crate::laws_rows;
use crate::laws_text;
use crate::rows;
use crate::services;
use crate::split;
use crate::system;
use crate::text;
use crate::ui;
use crate::ui::{Extent, Tone};

verus! {

// ------------------------------------------------------------------ keys

/// A pane opens with its key and closes with the same key, another key opening its own; either
/// way the view goes back to the end. Nothing else changes.
pub proof fn panes_open_and_close(a: app::AppView, pane: Pane)
    ensures
        a.pane == Some(pane) ==> keys::toggled(a, pane).pane is None,
        a.pane != Some(pane) ==> keys::toggled(a, pane).pane == Some(pane),
        keys::toggled(a, pane).log_scroll == 0,
        keys::toggled(a, pane) == (app::AppView {
            pane: keys::toggled(a, pane).pane,
            log_scroll: 0,
            ..a
        }),
{
}

/// Each letter asks for its own: the panes, the filter and what is done.
pub proof fn letters_have_their_meaning(a: app::AppView, c: char)
    requires
        !a.filter_editing,
    ensures
        keys::keyed(a, Key::Char('q')) == (a, Step::Quit),
        keys::keyed(a, Key::Char('/')) == (app::AppView { filter_editing: true, ..a }, Step::Stay),
        keys::keyed(a, Key::Char('l')) == (keys::toggled(a, Pane::Logs), Step::Stay),
        keys::keyed(a, Key::Char('u')) == (keys::toggled(a, Pane::Usage), Step::Stay),
        keys::keyed(a, Key::Char('v')) == (keys::toggled(a, Pane::EnvDiff), Step::Stay),
        keys::keyed(a, Key::Char('d')) == (keys::toggled(a, Pane::Details), Step::Stay),
        keys::keyed(a, Key::Char('m')) == (keys::toggled(a, Pane::Events), Step::Stay),
        keys::keyed(a, Key::Char('k')) == (actions::kill_requested(a), Step::Stay),
        keys::keyed(a, Key::Char('K')) == (
            actions::stack_requested(a, app::PendingView::StackStop),
            Step::Stay,
        ),
        keys::keyed(a, Key::Char('R')) == (
            actions::stack_requested(a, app::PendingView::StackRestart),
            Step::Stay,
        ),
        keys::keyed(a, Key::Char('r')) == (a, Step::RequestRestart),
        keys::keyed(a, Key::Char('a')) == (a, Step::RequestAdopt),
        keys::keyed(a, Key::Char('s')) == (a, Step::StartSelected),
        keys::keyed(a, Key::Char('S')) == (a, Step::StartAll),
        keys::keyed(a, Key::Char('y')) == (a, Step::Confirm),
        keys::keyed(a, Key::Char('o')) == (a, Step::OpenBrowser),
        keys::keyed(a, Key::Char('c')) == (a, Step::Copy(false)),
        keys::keyed(a, Key::Char('C')) == (a, Step::Copy(true)),
        keys::keyed(a, Key::Char('e')) == (a, Step::OpenEditor),
        !seq![
            'q',
            '/',
            'l',
            'u',
            'v',
            'd',
            'm',
            'k',
            'K',
            'R',
            'r',
            'a',
            's',
            'S',
            'y',
            'o',
            'c',
            'C',
            'e',
        ].contains(c) ==> keys::keyed(a, Key::Char(c)) == (a, Step::Stay),
{
    let known = seq![
        'q',
        '/',
        'l',
        'u',
        'v',
        'd',
        'm',
        'k',
        'K',
        'R',
        'r',
        'a',
        's',
        'S',
        'y',
        'o',
        'c',
        'C',
        'e',
    ];
    if !known.contains(c) {
        assert(known[0] == 'q' && known[1] == '/' && known[2] == 'l' && known[3] == 'u' && known[4]
            == 'v' && known[5] == 'd' && known[6] == 'm' && known[7] == 'k' && known[8] == 'K'
            && known[9] == 'R' && known[10] == 'r' && known[11] == 'a' && known[12] == 's'
            && known[13] == 'S' && known[14] == 'y' && known[15] == 'o' && known[16] == 'c'
            && known[17] == 'C' && known[18] == 'e');
    }
}

/// The other keys: up and down select, the page keys scroll by five lines and never past the end,
/// and nothing else happens.
pub proof fn other_keys_have_their_meaning(a: app::AppView)
    requires
        !a.filter_editing,
        a.log_scroll <= usize::MAX - 5,
    ensures
        ({
            let up = keys::keyed(a, Key::Up).0;
            let down = keys::keyed(a, Key::Down).0;
            let back = keys::keyed(a, Key::PageUp).0;
            let on = keys::keyed(a, Key::PageDown).0;
            &&& back == (app::AppView { log_scroll: back.log_scroll, ..a })
            &&& back.log_scroll == a.log_scroll + 5
            &&& on == (app::AppView { log_scroll: on.log_scroll, ..a })
            &&& a.log_scroll >= 5 ==> on.log_scroll == a.log_scroll - 5
            &&& a.log_scroll < 5 ==> on.log_scroll == 0
            &&& keys::keyed(back, Key::PageDown).0 == a
            &&& up == (app::AppView { table: up.table, ..a })
            &&& down == (app::AppView { table: down.table, ..a })
            &&& forall|i: usize|
                a.table.selected == Some(i) && i < usize::MAX ==> down.table.selected == Some(
                    #[trigger] ((i + 1) as usize),
                )
            &&& forall|i: usize|
                a.table.selected == Some(i) && i > 0 ==> up.table.selected == Some(
                    #[trigger] ((i - 1) as usize),
                )
            &&& a.table.selected == Some(0usize) ==> up.table.selected == Some(0usize)
            &&& keys::keyed(a, Key::Enter) == (a, Step::Stay)
            &&& keys::keyed(a, Key::Backspace) == (a, Step::Stay)
            &&& keys::keyed(a, Key::Other) == (a, Step::Stay)
        }),
{
}

/// While the filter is typed, a character is added to it, backspace takes the last one off, enter
/// keeps it and escape clears it; the rows follow. No key does anything else.
pub proof fn the_filter_is_typed(a: app::AppView, c: char, key: Key)
    requires
        a.filter_editing,
    ensures
        keys::keyed(a, key).1 == Step::Stay,
        ({
            let typed = keys::keyed(a, Key::Char(c)).0;
            let back = keys::keyed(a, Key::Backspace).0;
            let kept = keys::keyed(a, Key::Enter).0;
            let cleared = keys::keyed(a, Key::Esc).0;
            &&& typed.filter == a.filter.push(c) && typed.filter_editing
            &&& back.filter_editing
            &&& a.filter.len() > 0 ==> back.filter == a.filter.drop_last()
            &&& a.filter.len() == 0 ==> back.filter == a.filter
            &&& kept.filter == a.filter && !kept.filter_editing
            &&& cleared.filter.len() == 0 && !cleared.filter_editing
            &&& typed == rows::built(app::AppView { filter: a.filter.push(c), ..a })
            &&& keys::keyed(typed, Key::Backspace).0.filter == a.filter
        }),
        ({
            let b = keys::keyed(a, key).0;
            &&& b == (app::AppView {
                filter: b.filter,
                filter_editing: b.filter_editing,
                rows: b.rows,
                table: b.table,
                cpu_hist: b.cpu_hist,
                ..a
            })
        }),
{
    assert(a.filter.push(c).drop_last() =~= a.filter);
}

/// Escape drops what is pending; with nothing pending it closes the pane; with no pane open it
/// clears the filter. It does one of these at a time.
pub proof fn escape_goes_back_by_one(a: app::AppView)
    requires
        !a.filter_editing,
    ensures
        ({
            let b = keys::keyed(a, Key::Esc).0;
            &&& a.pending is Some ==> b.message == "cancelled"@ && b == (app::AppView {
                pending: None,
                message: b.message,
                events: b.events,
                ..a
            })
            &&& a.pending is None && a.pane is Some ==> b == (app::AppView { pane: None, ..a })
            &&& a.pending is None && a.pane is None ==> b.filter.len() == 0 && b.rows
                == rows::all_rows(a) && b == (app::AppView {
                filter: b.filter,
                rows: b.rows,
                table: b.table,
                cpu_hist: b.cpu_hist,
                ..a
            })
        }),
{
    if a.pending is None && a.pane is None {
        let c = app::AppView { filter: Seq::empty(), ..a };
        laws_rows::rows_depend_on_what_they_show(a, c);
    }
}

/// A click on the row that is drawn on a line of the table selects it: the first stands below the
/// border and the heading, the others below it. In the last twelve columns before the border it
/// asks for a restart too. A click anywhere else does nothing.
pub proof fn clicks_hit_what_is_drawn(a: app::AppView, line: int, ev: MouseEvent)
    requires
        ev.left_down,
        a.rows.len() <= usize::MAX,
    ensures
        ({
            let area = a.table_area;
            let b = keys::clicked(a, ev);
            let inside = area.x <= ev.column < area.x + area.width && area.y + 2 <= ev.row && ev.row
                < area.y + area.height - 1;
            &&& inside && ev.row == area.y + 2 + line && a.table.offset + line < a.rows.len()
                ==> b.0 == (app::AppView {
                table: crate::table::TableState {
                    selected: Some((a.table.offset + line) as usize),
                    offset: a.table.offset,
                },
                ..a
            }) && (area.width >= 13 && ev.column >= area.x + area.width - 13 ==> b.1
                == Step::RequestRestart) && (ev.column < area.x + area.width - 13 ==> b.1
                == Step::Stay)
            &&& !inside ==> b == (a, Step::Stay)
            &&& ev.row == area.y + 2 + line && a.table.offset + line >= a.rows.len() ==> b == (
                a,
                Step::Stay,
            )
        }),
        keys::clicked(a, MouseEvent { left_down: false, ..ev }) == (a, Step::Stay),
{
}

// ------------------------------------------------------------------ the table

/// The cells of a row read back as the row: the port and the process id as numbers, then the
/// name behind what kind of row it is, the status, the user, the command and how it is restarted.
pub proof fn cells_read_back(r: app::RowView)
    ensures
        ({
            let c = ui::cells(r);
            &&& c.len() == 7
            &&& r.port matches Some(p) ==> text::parse_unsigned(c[0], 10, 0xffff) == Some(p as nat)
            &&& r.port is None ==> c[0] == "-"@
            &&& r.pid matches Some(p) ==> text::parse_i32_spec(c[1]) == Some(p as int)
            &&& r.pid is None ==> c[1] == "-"@
            &&& r.kind is Service ==> c[2] == "[svc] "@ + r.name
            &&& r.kind is Process ==> c[2] == "[ext] "@ + r.name
            &&& r.kind is Container ==> c[2] == "[docker] "@ + r.name
            &&& c[3] == r.status
            &&& c[4] == r.user
            &&& r.cmd.len() > 0 ==> c[5] == r.cmd
            &&& r.cmd.len() == 0 ==> c[5] == "-"@
            &&& c[6] == "↻ "@ + actions::strategy_label(r.strategy)
        }),
{
    if let Some(p) = r.port {
        laws_text::decimals_read_back(p as nat, 0xffff);
    }
    if let Some(p) = r.pid {
        laws_text::signed_decimals_read_back(p);
    }
}

/// Only the status and the way to restart are coloured, the status by what it says.
pub proof fn cells_are_coloured(r: app::RowView, i: int)
    requires
        0 <= i < 7,
    ensures
        ui::coloured(r).len() == 7,
        ui::coloured(r)[i].text == ui::cells(r)[i],
        i == 3 ==> ui::coloured(r)[i].tone == ui::tone(text::lowercase(r.status)),
        i == 6 ==> ui::coloured(r)[i].tone == Tone::Accent,
        i != 3 && i != 6 ==> ui::coloured(r)[i].tone == Tone::Plain,
{
}

/// What is up or listens is good, what is on its way busy, what is down, crashed or in conflict
/// bad, and anything else dim.
pub proof fn statuses_have_their_tone(s: Seq<char>, more: Seq<char>)
    ensures
        ui::tone("up"@) == Tone::Good,
        ui::tone("up "@ + more) == Tone::Good,
        ui::tone("listen"@) == Tone::Good,
        ui::tone("starting"@) == Tone::Busy,
        ui::tone("restarting"@) == Tone::Busy,
        ui::tone("down"@) == Tone::Bad,
        ui::tone("crashed"@) == Tone::Bad,
        ui::tone("conflict"@) == Tone::Bad,
        s != "up"@ && s != "listen"@ && !split::begins(s, "up "@) && s != "starting"@ && s
            != "restarting"@ && s != "down"@ && s != "crashed"@ && s != "conflict"@ ==> ui::tone(s)
            == Tone::Dim,
{
    reveal_strlit("up");
    reveal_strlit("up ");
    reveal_strlit("listen");
    reveal_strlit("starting");
    reveal_strlit("restarting");
    reveal_strlit("down");
    reveal_strlit("crashed");
    reveal_strlit("conflict");
    laws_text::ends_are_taken_off(more, "up "@);
    assert("starting"@[0] == 's' && "restarting"@[0] == 'r' && "down"@[0] == 'd' && "crashed"@[0]
        == 'c' && "conflict"@[0] == 'c' && "up "@[0] == 'u' && "up"@[0] == 'u' && "listen"@[0]
        == 'l');
    assert("crashed"@.len() == 7 && "conflict"@.len() == 8 && "starting"@.len() == 8);
    assert("starting"@.take(3)[0] == 's');
    assert("restarting"@.take(3)[0] == 'r');
    assert("down"@.take(3)[0] == 'd');
    assert("crashed"@.take(3)[0] == 'c');
    assert("conflict"@.take(3)[0] == 'c');
}

/// The table has seven columns, each with its heading, the last twelve wide; a pane is twelve
/// lines high and the footer one.
pub proof fn the_screen_is_laid_out(a: app::AppView)
    ensures
        ui::widths().len() == 7 && ui::heads().len() == 7,
        ui::widths()[6] == Extent::Exactly(12),
        ui::widths()[0] == Extent::Exactly(6) && ui::widths()[1] == Extent::Exactly(8)
            && ui::widths()[2] == Extent::Exactly(20) && ui::widths()[3] == Extent::Exactly(12)
            && ui::widths()[4] == Extent::Exactly(10) && ui::widths()[5] == Extent::AtLeast(20),
        ui::heads()[0] == "PORT"@ && ui::heads()[1] == "PID"@ && ui::heads()[2] == "NAME"@
            && ui::heads()[3] == "STATUS"@ && ui::heads()[4] == "USER"@ && ui::heads()[5]
            == "COMMAND"@ && ui::heads()[6] == "RESTART"@,
        a.pane is Some ==> ui::heights(a) == seq![
            Extent::AtLeast(8),
            Extent::Exactly(12),
            Extent::Exactly(1),
        ],
        a.pane is None ==> ui::heights(a) == seq![Extent::AtLeast(8), Extent::Exactly(1)],
        a.filter.len() == 0 ==> ui::table_title(a.filter) == " dev-panel "@,
        a.filter.len() > 0 ==> ui::table_title(a.filter) == " dev-panel — filter: "@ + a.filter
            + " "@,
{
}

// ------------------------------------------------------------------ logs and events

/// The lines in view are those that end as many lines before the last as was scrolled back, but
/// no further back than the first; they stand in their order, and as many as fit are shown.
pub proof fn scrolling_shows_earlier_lines(all: Seq<Seq<char>>, scroll: usize, visible: nat, j: int)
    ensures
        ({
            let s = ui::clamped_scroll(scroll, all.len(), visible);
            let w = ui::window(all, s, visible);
            let room = all.len() - visible;
            &&& all.len() <= visible ==> s == 0 && w == all
            &&& all.len() > visible ==> {
                &&& scroll <= room ==> s == scroll
                &&& scroll > room ==> s == room
                &&& w.len() == visible
                &&& 0 <= j < visible ==> w[j] == all[all.len() - visible - s + j]
            }
        }),
{
    let s = ui::clamped_scroll(scroll, all.len(), visible);
    if all.len() <= visible {
        assert(all.skip(0) =~= all);
    }
}

/// The log pane shows the log of the selected service in what is left of the pane's height
/// between its borders, and keeps the scrolling within the log.
pub proof fn the_log_pane_shows_the_log(a: app::AppView, row: app::RowView, i: usize, height: u16)
    requires
        a.selected_row() == Some(row),
        row.kind == app::RowKindView::Service(i),
        height >= 2,
    ensures
        ({
            let s = a.manager.services[i as int];
            let visible = (height - 2) as nat;
            let back = ui::clamped_scroll(a.log_scroll, s.logs.len(), visible);
            &&& ui::log_lines(a, height) == ui::window(s.logs, back, visible)
            &&& ui::logs_drawn(a, height) == (app::AppView { log_scroll: back as usize, ..a })
            &&& ui::logs_title(a) == " logs: "@ + s.cfg.name + " ("@ + text::decimal(s.logs.len())
                + " lines) "@
        }),
{
}

/// Rows that are no services have no log.
pub proof fn other_rows_have_no_log(a: app::AppView, height: u16)
    requires
        a.selected_row() is None || !(a.selected_row()->0.kind is Service),
    ensures
        ui::log_lines(a, height) == seq!["logs are captured for managed services only"@],
        ui::logs_drawn(a, height) == a,
        ui::logs_title(a) == " logs (PgUp/PgDn scroll) "@,
{
}

/// The event pane shows the events the same way.
pub proof fn the_event_pane_shows_the_events(a: app::AppView, height: u16)
    requires
        height >= 2,
    ensures
        ({
            let visible = (height - 2) as nat;
            let back = ui::clamped_scroll(a.log_scroll, a.events.len(), visible);
            &&& ui::event_lines(a, height) == ui::window(a.events, back, visible)
            &&& ui::events_drawn(a, height) == (app::AppView { log_scroll: back as usize, ..a })
            &&& ui::events_title(a) == " events ("@ + text::decimal(a.events.len()) + ") "@
        }),
{
}

// ------------------------------------------------------------------ panes

/// A time is written in hours, minutes and seconds, without the leading parts that are zero.
pub proof fn durations_are_written_out(h: nat, m: nat, s: nat)
    requires
        m < 60,
        s < 60,
    ensures
        h > 0 ==> ui::duration_text(3600 * h + 60 * m + s) == text::decimal(h) + "h"@
            + text::decimal(m) + "m"@ + text::decimal(s) + "s"@,
        m > 0 ==> ui::duration_text(60 * m + s) == text::decimal(m) + "m"@ + text::decimal(s)
            + "s"@,
        ui::duration_text(s) == text::decimal(s) + "s"@,
{
    let t = 3600 * h + 60 * m + s;
    assert(t / 3600 == h && t % 3600 == 60 * m + s) by (nonlinear_arith)
        requires
            t == 3600 * h + 60 * m + s,
            m < 60,
            s < 60,
    ;
    assert((60 * m + s) / 60 == m);
    assert(t % 60 == s) by (nonlinear_arith)
        requires
            t == 3600 * h + 60 * m + s,
            m < 60,
            s < 60,
    ;
}

/// The usage of the selected row is the history of its process, with its name and, while it is
/// alive, its use and its memory in megabytes now; the title tells how far back it goes, at two
/// seconds a sample.
pub proof fn usage_is_of_the_selected_process(a: app::AppView, row: app::RowView)
    requires
        a.selected_row() == Some(row),
    ensures
        row.pid is None ==> ui::usage_of(a) is None,
        row.pid is Some && !a.cpu_hist.contains_key(row.pid->0) ==> ui::usage_of(a) is None,
        row.pid is Some && a.cpu_hist.contains_key(row.pid->0) ==> (ui::usage_of(a) matches Some(
            (hist, summary),
        ) && hist == a.cpu_hist[row.pid->0] && ({
            let known = system::process_of(a.system, row.pid->0);
            &&& known is None ==> summary == row.name
            &&& known is Some ==> summary == row.name + " — cpu "@ + known->0.cpu_text + "%  mem "@
                + text::decimal(known->0.memory as nat / 1_048_576) + " MB"@
        })),
        forall|summary: Seq<char>, n: nat| #[trigger]
            ui::usage_title_text(summary, n) == " "@ + summary + " — cpu% last "@ + text::decimal(
                2 * n,
            ) + "s "@,
{
    assert forall|summary: Seq<char>, n: nat| #[trigger]
        ui::usage_title_text(summary, n) == " "@ + summary + " — cpu% last "@ + text::decimal(2 * n)
            + "s "@ by {
        assert(n * 2 == 2 * n);
    }
}

/// The details of the selected row are those of its process: its name, its id, its command, where
/// and how long it has been running, and its children.
pub proof fn details_are_of_the_selected_process(
    a: app::AppView,
    lookup: system::LookupView,
    row: app::RowView,
    pid: i32,
    p: system::ProcessView,
)
    requires
        a.selected_row() == Some(row),
        row.pid == Some(pid),
        system::process_of(a.system, pid) == Some(p),
    ensures
        ({
            let d = ui::details_of(a, lookup);
            let cmd = system::command_of(p, lookup);
            let cwd = system::cwd_of(Some(p), lookup);
            let children = ui::children_of(a, pid);
            &&& d.len() == 6
            &&& d[0] == "name: "@ + row.name
            &&& d[1] == "pid: "@ + text::signed_decimal(pid as int)
            &&& cmd.len() > 0 ==> d[2] == "cmd: "@ + split::join(cmd, " "@)
            &&& cmd.len() == 0 ==> d[2] == "cmd: "@ + "-"@
            &&& cwd is Some ==> d[3] == "cwd: "@ + cwd->0
            &&& cwd is None ==> d[3] == "cwd: "@ + "-"@
            &&& d[4] == "uptime: "@ + ui::duration_text(p.run_time as nat)
            &&& children.len() > 0 ==> d[5] == "children: "@ + split::join(children, ", "@)
            &&& children.len() == 0 ==> d[5] == "children: "@ + "none"@
            &&& ui::details_title(a) == " details for selected row: "@ + row.name
                + " (pane below table, not inline) "@
        }),
{
}

/// Without a process there are no details.
pub proof fn details_need_a_process(a: app::AppView, lookup: system::LookupView)
    ensures
        a.selected_row() is None ==> ui::details_of(a, lookup) == seq!["nothing selected"@]
            && ui::details_title(a) == " details for selected row: "@ + "-"@
            + " (pane below table, not inline) "@,
        a.selected_row() matches Some(row) ==> {
            &&& row.pid is None ==> ui::details_of(a, lookup) == seq![
                row.name + ": no pid (container or unresolved)"@,
            ]
            &&& row.pid is Some && system::process_of(a.system, row.pid->0) is None
                ==> ui::details_of(a, lookup) == seq!["process is gone"@]
        },
{
}

/// The children of a process are those whose parent it is, in the order of the table, each with
/// its id and its name. The result says which they are.
pub proof fn children_are_listed(a: app::AppView, pid: i32) -> (at: Seq<int>)
    ensures
        at.len() == ui::children_of(a, pid).len(),
        forall|k: int|
            0 <= k < at.len() ==> 0 <= #[trigger] at[k] < a.system.len() && a.system[at[k]].parent
                == Some(pid) && ui::children_of(a, pid)[k] == text::signed_decimal(
                a.system[at[k]].pid as int,
            ) + " ("@ + a.system[at[k]].name + ")"@,
        forall|k: int, l: int| 0 <= k < l < at.len() ==> #[trigger] at[k] < #[trigger] at[l],
        forall|i: int|
            0 <= i < a.system.len() && (#[trigger] a.system[i]).parent == Some(pid) ==> at.contains(
                i,
            ),
{
    let f = |c: system::ProcessView| ui::child_text(c, pid);
    let at = laws_text::what_is_given_is_listed(a.system, f);
    let listed = split::filter_map(a.system, f);
    assert forall|k: int| 0 <= k < at.len() implies 0 <= #[trigger] at[k] < a.system.len()
        && a.system[at[k]].parent == Some(pid) && ui::children_of(a, pid)[k]
        == text::signed_decimal(a.system[at[k]].pid as int) + " ("@ + a.system[at[k]].name + ")"@ by {
        assert(f(a.system[at[k]]) == Some(listed[k]));
    }
    assert forall|i: int|
        0 <= i < a.system.len() && (#[trigger] a.system[i]).parent == Some(
            pid,
        ) implies at.contains(i) by {
        assert(f(a.system[i]) is Some);
    }
    at
}

/// The environment pane shows, in order, exactly the lines of the difference between the
/// environment of the process and the shell's, and says so when there is none.
pub proof fn the_environment_pane_shows_the_difference(
    a: app::AppView,
    row: app::RowView,
    pid: i32,
    p: system::ProcessView,
    ours: Seq<(Seq<char>, Seq<char>)>,
    lines: Seq<Seq<char>>,
    line: Seq<char>,
)
    requires
        a.selected_row() == Some(row),
        row.pid == Some(pid),
        system::process_of(a.system, pid) == Some(p),
        ui::shows_env_diff(a, ours, lines),
    ensures
        ({
            let theirs = env::environ_pairs(p.environ);
            let differences = env::diff_lines(theirs, ours);
            &&& theirs.len() == 0 ==> lines == seq!["no env readable for this process"@]
            &&& theirs.len() > 0 && differences.len() == 0 ==> lines == seq![
                "env matches current shell"@,
            ]
            &&& theirs.len() > 0 && differences.len() > 0 ==> {
                &&& lines.len() == differences.len()
                &&& lines.contains(line) <==> differences.contains(line)
                &&& forall|i: int, j: int|
                    0 <= i < j < lines.len() ==> env::text_le(#[trigger] lines[i], #[trigger] lines[j])
            }
        }),
{
    broadcast use vstd::seq_lib::group_to_multiset_ensures;

    let theirs = env::environ_pairs(p.environ);
    let differences = env::diff_lines(theirs, ours);
    if theirs.len() > 0 && differences.len() > 0 {
        assert(lines.to_multiset().count(line) == differences.to_multiset().count(line));
        assert(lines.to_multiset().len() == differences.to_multiset().len());
    }
}

/// Without a process there is no environment to show.
pub proof fn environments_need_a_process(
    a: app::AppView,
    ours: Seq<(Seq<char>, Seq<char>)>,
    lines: Seq<Seq<char>>,
)
    requires
        ui::shows_env_diff(a, ours, lines),
    ensures
        a.selected_row() is None || a.selected_row()->0.pid is None ==> lines == seq![
            "select a row with a pid"@,
        ],
        a.selected_row() matches Some(row) && row.pid is Some && system::process_of(
            a.system,
            row.pid->0,
        ) is None ==> lines == seq!["process is gone"@],
{
}

/// Each pane shows what it is for, and no pane shows nothing.
pub proof fn panes_show_their_own(
    a: app::AppView,
    height: u16,
    lookup: system::LookupView,
    ours: Seq<(Seq<char>, Seq<char>)>,
    shown: Option<ui::PaneContent>,
)
    requires
        ui::shows_pane(a, height, lookup, ours, shown),
    ensures
        a.pane is None <==> shown is None,
        a.pane == Some(Pane::Logs) ==> (shown matches Some(ui::PaneContent::Text(t)) && t.title@
            == ui::logs_title(a) && text::texts(t.lines@) == ui::log_lines(a, height)),
        a.pane == Some(Pane::Events) ==> (shown matches Some(ui::PaneContent::Text(t)) && t.title@
            == ui::events_title(a) && text::texts(t.lines@) == ui::event_lines(a, height)),
        a.pane == Some(Pane::Details) ==> (shown matches Some(ui::PaneContent::Text(t)) && t.title@
            == ui::details_title(a) && text::texts(t.lines@) == ui::details_of(a, lookup)),
        a.pane == Some(Pane::EnvDiff) ==> (shown matches Some(ui::PaneContent::Text(t)) && t.title@
            == " env diff (v proc vs shell) "@ && ui::shows_env_diff(a, ours, text::texts(t.lines@))),
        a.pane == Some(Pane::Usage) && ui::usage_of(a) is None ==> (shown matches Some(
            ui::PaneContent::Text(t),
        ) && t.title@ == " usage "@ && text::texts(t.lines@) == seq!["select a row with a pid"@]),
        a.pane == Some(Pane::Usage) && ui::usage_of(a) is Some ==> (shown matches Some(
            ui::PaneContent::Spark { title, samples },
        ) && (ui::usage_of(a) matches Some((hist, summary)) && samples@ == hist && title@
            == ui::usage_title_text(summary, hist.len()))),
        ui::pane_drawn(a, height).manager == a.manager && ui::pane_drawn(a, height).rows == a.rows
            && ui::pane_drawn(a, height).pane == a.pane,
        a.pane == Some(Pane::Logs) ==> ui::pane_drawn(a, height) == ui::logs_drawn(a, height),
        a.pane == Some(Pane::Events) ==> ui::pane_drawn(a, height) == ui::events_drawn(a, height),
        a.pane != Some(Pane::Logs) && a.pane != Some(Pane::Events) ==> ui::pane_drawn(a, height)
            == a,
{
}

// ------------------------------------------------------------------ footer and question

/// The footer shows the message, and the filter while it is typed.
pub proof fn the_footer_shows_the_message(a: app::AppView)
    ensures
        a.filter_editing ==> ui::footer_text(a) == " /"@ + a.filter
            + "▌  Enter apply · Esc clear"@,
        !a.filter_editing ==> split::begins(ui::footer_text(a), " "@ + a.message)
            && ui::footer_text(a).len() > a.message.len() + 1,
{
    if !a.filter_editing {
        let keys_text = "  |  k kill  r/click↻ restart  s/S start  l logs  d details (below)  u cpu  v env  o open  c/C copy  e edit  / filter  q quit"@;
        reveal_strlit(
            "  |  k kill  r/click↻ restart  s/S start  l logs  d details (below)  u cpu  v env  o open  c/C copy  e edit  / filter  q quit",
        );
        reveal_strlit(" ");
        laws_text::ends_are_taken_off(keys_text, " "@ + a.message);
    }
}

/// There is a question box exactly when something is pending: the question and how to answer it,
/// then what will run.
pub proof fn questions_are_shown(a: app::AppView)
    ensures
        ui::modal_text(a) is Some <==> a.pending is Some,
        a.pending is Some ==> ({
            let lines = ui::modal_text(a)->0;
            &&& lines.len() == 1 + actions::preview(a).len()
            &&& lines[0] == actions::question(a)->0 + "  y = confirm, Esc = cancel"@
            &&& lines.skip(1) == actions::preview(a)
        }),
{
    if a.pending is Some {
        assert(ui::modal_text(a)->0.skip(1) =~= actions::preview(a));
    }
}

/// What is centred stays within its area, is as large as asked for where there is room, and has
/// the same room on both sides, up to one.
pub proof fn centring_is_even(area: Rect, w: u16, h: u16)
    requires
        area.x + area.width <= u16::MAX,
        area.y + area.height <= u16::MAX,
    ensures
        ({
            let r = ui::centred(area, w, h);
            let left = r.x - area.x;
            let right = area.x + area.width - (r.x + r.width);
            let above = r.y - area.y;
            let below = area.y + area.height - (r.y + r.height);
            &&& w <= area.width ==> r.width == w
            &&& w > area.width ==> r.width == area.width
            &&& h <= area.height ==> r.height == h
            &&& h > area.height ==> r.height == area.height
            &&& 0 <= left && left <= right <= left + 1
            &&& 0 <= above && above <= below <= above + 1
        }),
{
}

/// A panel that has just been made shows nothing, has nothing pending and is ready.
pub proof fn panels_begin_ready(
    m: crate::manager::ManagerView,
    os: crate::platform::Os,
    own_pid: i32,
    is_root: bool,
)
    ensures
        ({
            let a = app::fresh(m, os, own_pid, is_root);
            &&& a.manager == m && a.os == os && a.own_pid == own_pid && a.is_root == is_root
            &&& a.rows.len() == 0 && a.external.len() == 0 && a.containers.len() == 0
                && a.system.len() == 0 && a.lookups.len() == 0
            &&& a.pending is None && a.pane is None && a.table.selected is None && a.table.offset
                == 0
            &&& a.term_sent.len() == 0 && a.respawns.len() == 0 && a.respawn_watches.len() == 0
            &&& a.filter.len() == 0 && !a.filter_editing && a.log_scroll == 0
            &&& a.docker_ok && !a.warned_conflicts
            &&& a.message == "ready"@ && a.events.len() == 0
            &&& a.cpu_hist == Map::<i32, Seq<u64>>::empty()
        }),
{
}

/// What is told of a configuration names the file.
pub proof fn configuration_errors_name_the_file(reason: Seq<char>)
    ensures
        crate::manager::config_error_text(reason) == "dev-panel.toml"@ + ": "@ + reason,
        services::CONFIG_FILE@ == "dev-panel.toml"@,
{
}

} // verus!
