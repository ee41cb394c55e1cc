//! What asking for an action, confirming it and watching it does.
use vstd::prelude::*;
use crate::actions;
use crate::adopt;
use crate::app;
use crate::confirm;
use crate::laws_reading;
use crate::laws_rows;
use crate::laws_text;
use crate::manager;
use crate::quick;
use crate::rows;
use crate::services;
use crate::split;
use crate::system;
use crate::text;
use crate::watch;

verus! {

// ------------------------------------------------------------------ asking

/// Asking for a kill makes one of the selected row pending: of a service that runs its stop, of a
/// container its stop, of a process that is not guarded its end. Nothing else becomes pending,
/// and nothing but that and the message changes.
pub proof fn kills_are_of_the_selected_row(a: app::AppView, row: app::RowView)
    requires
        a.selected_row() == Some(row),
    ensures
        ({
            let b = actions::kill_requested(a);
            &&& match row.kind {
                app::RowKindView::Service(i) => if a.manager.services[i as int].child is Some {
                    b.pending == Some(app::PendingView::ServiceStop(i)) && b.message == a.message
                } else {
                    b.pending == a.pending && b.message == "service is not running"@
                },
                app::RowKindView::Container { id } => b.pending == Some(
                    app::PendingView::ContainerStop { id, name: row.name },
                ) && b.message == a.message,
                app::RowKindView::Process => if actions::guard(a, row) is Some {
                    b.pending == a.pending && Some(b.message) == actions::guard(a, row)
                } else {
                    b.pending == Some(
                        app::PendingView::Kill { pid: row.pid->0, name: row.name },
                    ) && b.message == a.message
                },
            }
            &&& b == (app::AppView {
                pending: b.pending,
                message: b.message,
                events: b.events,
                ..a
            })
        }),
{
}

/// A process is guarded when it is the first, when it is an ancestor of the panel or the panel,
/// and when it is root's and the panel is not; for no other reason.
pub proof fn guards_have_three_reasons(a: app::AppView, row: app::RowView, pid: i32)
    requires
        row.pid == Some(pid),
    ensures
        actions::guard(a, row) is Some <==> pid == 1 || actions::in_own_tree(a, pid) || (row.user
            == "root"@ && !a.is_root),
        pid == 1 ==> actions::guard(a, row) == Some("refusing to touch PID 1"@),
        pid != 1 && actions::in_own_tree(a, pid) ==> actions::guard(a, row) == Some(
            "that's dev-panel's own process tree"@,
        ),
        pid != 1 && !actions::in_own_tree(a, pid) && row.user == "root"@ && !a.is_root
            ==> actions::guard(a, row) == Some(row.name + " is root-owned; not running as root"@),
        actions::in_own_tree(a, a.own_pid),
{
}

/// Without a selected row nothing is asked for.
pub proof fn nothing_selected_nothing_asked(
    a: app::AppView,
    lookup: system::LookupView,
    now: u64,
    spawned: Result<i32, String>,
    done: Result<(), String>,
    pid_first: bool,
)
    requires
        a.selected_row() is None,
    ensures
        actions::kill_requested(a) == a,
        actions::restart_requested(a, lookup) == a,
        !(a.pending is Some && a.pending->0 is Restart) ==> actions::adopt_requested(a, lookup) == a,
        quick::selected_launch(a) is None,
        quick::selected_started(a, spawned, now) == a,
        quick::copied(a, pid_first, done) == a,
        quick::editor_opened(a, done) == a,
{
}

/// Asking for a restart makes one of the selected row pending. Of a process it is the end of that
/// process and the run of its command line in its directory: the directory that the process table
/// knows, or else the first that `lsof` named; so it is known whenever either names one.
pub proof fn restarts_are_of_the_selected_row(
    a: app::AppView,
    lookup: system::LookupView,
    row: app::RowView,
    before: Seq<Seq<char>>,
    dir: Seq<char>,
    after: Seq<Seq<char>>,
)
    requires
        a.selected_row() == Some(row),
        forall|i: int|
            0 <= i < before.len() ==> (#[trigger] before[i]).len() == 0 || before[i][0] != 'n',
    ensures
        ({
            let b = actions::restart_requested(a, lookup);
            &&& b == (app::AppView {
                pending: b.pending,
                message: b.message,
                events: b.events,
                ..a
            })
            &&& match row.kind {
                app::RowKindView::Service(i) => b.pending == Some(
                    app::PendingView::ServiceRestart(i),
                ) && b.message == a.message,
                app::RowKindView::Container { id } => b.pending == Some(
                    app::PendingView::ContainerRestart { id, name: row.name },
                ) && b.message == a.message,
                app::RowKindView::Process => {
                    let pid = row.pid->0;
                    let cmd = rows::known_command(a.system, pid, lookup);
                    let way = rows::process_strategy(a.manager, a.os, pid, row.port, cmd, lookup);
                    let known = system::process_of(a.system, pid);
                    if actions::guard(a, row) is Some {
                        b.pending == a.pending && Some(b.message) == actions::guard(a, row)
                    } else if way is Unknown {
                        b.pending == a.pending && b.message
                            == "no command line captured; can't restart"@
                    } else {
                        &&& b.message == a.message
                        &&& b.pending matches Some(
                            app::PendingView::Restart { pid: p, name, cmd: c, cwd, port, strategy },
                        ) && p == pid && name == row.name && c == cmd && port == row.port
                            && strategy == way && {
                            &&& known is Some && known->0.cwd is Some ==> cwd == known->0.cwd
                            &&& !(known is Some && known->0.cwd is Some) && lookup.lsof is Some
                                && split::lines(lookup.lsof->0) == before.push(seq!['n'] + dir)
                                + after ==> cwd == Some(dir)
                            &&& !(known is Some && known->0.cwd is Some) && (lookup.lsof is None
                                || split::lines(lookup.lsof->0) == before) ==> cwd is None
                        }
                    }
                },
            }
        }),
{
    if row.kind is Process {
        laws_reading::directories_come_from_the_table_first(
            system::process_of(a.system, row.pid->0),
            lookup,
            before,
            dir,
            after,
        );
    }
}

/// The command line of a restart that is confirmed is run where the restart says, through the
/// shell when it says so, as soon as the process is gone, and not before.
pub proof fn restarts_run_where_they_ran(
    a: app::AppView,
    replies: Seq<Result<i32, String>>,
    now: u64,
    pid: i32,
    name: Seq<char>,
    cmd: Seq<Seq<char>>,
    cwd: Option<Seq<char>>,
    port: Option<u16>,
    strategy: app::StrategyView,
    later: Seq<system::ProcessView>,
)
    requires
        a.pending == Some(app::PendingView::Restart { pid, name, cmd, cwd, port, strategy }),
        strategy is Shell || strategy is Naive,
        replies.len() == 1,
        replies[0] is Ok,
    ensures
        confirm::calls_of(a) == seq![confirm::CallView::Terminate(pid)],
        ({
            let b = confirm::confirmed(a, replies, now);
            let r = b.respawns.last();
            let c = app::AppView { system: later, ..b };
            &&& b.respawns.len() == a.respawns.len() + 1
            &&& b.respawns.drop_last() == a.respawns
            &&& b.term_sent.len() == a.term_sent.len() + 1
            &&& b.term_sent.drop_last() == a.term_sent
            &&& b.term_sent.last() == (pid, now)
            &&& r.pid == pid
            &&& r.since == now
            &&& b.pending is None
            &&& b.manager == a.manager
            &&& b.message == "restarting "@ + name + ": SIGTERM → "@ + text::signed_decimal(
                pid as int,
            )
            &&& (forall|x: int| 0 <= x < later.len() ==> (#[trigger] later[x]).pid != pid)
                ==> watch::revive_of(c, r) == (watch::ReviveView::Command {
                cmd,
                cwd,
                shell: strategy is Shell,
            })
            &&& (exists|x: int| 0 <= x < later.len() && (#[trigger] later[x]).pid == pid)
                ==> watch::revive_of(c, r) == watch::ReviveView::Nothing
        }),
{
    laws_reading::the_living_are_in_the_table(later, pid);
    let b = confirm::confirmed(a, replies, now);
    assert(b.respawns.drop_last() =~= a.respawns);
    assert(b.term_sent.drop_last() =~= a.term_sent);
}

/// A signal that could not be sent is told, and nothing waits for the process.
pub proof fn failed_signals_change_nothing(
    a: app::AppView,
    replies: Seq<Result<i32, String>>,
    now: u64,
    pid: i32,
    e: String,
)
    requires
        replies.len() == 1,
        replies[0] == Err::<i32, String>(e),
        match a.pending {
            Some(app::PendingView::Kill { pid: p, .. }) => p == pid,
            Some(app::PendingView::Restart { pid: p, strategy, .. }) => p == pid
                && !(strategy is Systemd) && !(strategy is Launchd),
            _ => false,
        },
    ensures
        ({
            let b = confirm::confirmed(a, replies, now);
            &&& b.message == "SIGTERM "@ + text::signed_decimal(pid as int) + " failed: "@ + e@
            &&& b == (app::AppView {
                pending: None,
                message: b.message,
                events: b.events,
                ..a
            })
        }),
{
}

/// A kill that is confirmed sends one signal, to the process that was asked about, and waits for
/// it from now on; it does nothing else.
pub proof fn kills_signal_the_process(
    a: app::AppView,
    replies: Seq<Result<i32, String>>,
    now: u64,
    pid: i32,
    name: Seq<char>,
)
    requires
        a.pending == Some(app::PendingView::Kill { pid, name }),
        replies.len() == 1,
        replies[0] is Ok,
    ensures
        confirm::calls_of(a) == seq![confirm::CallView::Terminate(pid)],
        ({
            let b = confirm::confirmed(a, replies, now);
            &&& b.term_sent.len() == a.term_sent.len() + 1
            &&& b.term_sent.drop_last() == a.term_sent
            &&& b.term_sent.last() == (pid, now)
            &&& b.message == "SIGTERM → "@ + text::signed_decimal(pid as int) + " ("@ + name + ")"@
            &&& b == (app::AppView {
                pending: None,
                term_sent: b.term_sent,
                message: b.message,
                events: b.events,
                ..a
            })
        }),
{
    assert(confirm::confirmed(a, replies, now).term_sent.drop_last() =~= a.term_sent);
}

/// A process of a unit or of an agent is restarted by its supervisor, under its name, and by
/// nothing else; how that went is told.
pub proof fn supervisors_restart_their_own(
    a: app::AppView,
    replies: Seq<Result<i32, String>>,
    now: u64,
    pid: i32,
    name: Seq<char>,
    cmd: Seq<Seq<char>>,
    cwd: Option<Seq<char>>,
    port: Option<u16>,
    strategy: app::StrategyView,
)
    requires
        a.pending == Some(app::PendingView::Restart { pid, name, cmd, cwd, port, strategy }),
        strategy is Systemd || strategy is Launchd,
        replies.len() == 1,
    ensures
        ({
            let b = confirm::confirmed(a, replies, now);
            &&& b == (app::AppView {
                pending: None,
                message: b.message,
                events: b.events,
                ..a
            })
            &&& strategy matches app::StrategyView::Systemd(unit) ==> confirm::calls_of(a) == seq![
                confirm::CallView::Systemctl(unit),
            ] && match replies[0] {
                Ok(_) => b.message == "systemctl restarted "@ + unit,
                Err(e) => b.message == "systemctl restart "@ + unit + " failed: "@ + e@,
            }
            &&& strategy matches app::StrategyView::Launchd(label) ==> confirm::calls_of(a) == seq![
                confirm::CallView::Launchctl(label),
            ] && match replies[0] {
                Ok(_) => b.message == "launchctl restarted "@ + label,
                Err(e) => b.message == "launchctl kickstart "@ + label + " failed: "@ + e@,
            }
        }),
{
}

/// A process on the port of a service is ended like any other, and the service is started in its
/// place: its own command, in its own directory.
pub proof fn services_take_the_place(
    a: app::AppView,
    replies: Seq<Result<i32, String>>,
    now: u64,
    pid: i32,
    name: Seq<char>,
    cmd: Seq<Seq<char>>,
    cwd: Option<Seq<char>>,
    port: Option<u16>,
    i: usize,
    later: Seq<system::ProcessView>,
)
    requires
        a.pending == Some(
            app::PendingView::Restart {
                pid,
                name,
                cmd,
                cwd,
                port,
                strategy: app::StrategyView::Configured(i),
            },
        ),
        i < a.manager.services.len(),
        replies.len() == 1,
        replies[0] is Ok,
        forall|x: int| 0 <= x < later.len() ==> (#[trigger] later[x]).pid != pid,
    ensures
        confirm::calls_of(a) == seq![confirm::CallView::Terminate(pid)],
        ({
            let b = confirm::confirmed(a, replies, now);
            let r = b.respawns.last();
            let c = app::AppView { system: later, ..b };
            &&& r.pid == pid && r.since == now
            &&& b.respawns.drop_last() == a.respawns
            &&& b.term_sent.last() == (pid, now)
            &&& a.manager.services[i as int].child is None ==> watch::revive_of(c, r)
                == watch::ReviveView::Service(
                manager::LaunchView {
                    service: i,
                    cmd: a.manager.services[i as int].cfg.cmd,
                    cwd: a.manager.services[i as int].cfg.cwd,
                },
            )
            &&& a.manager.services[i as int].child is Some ==> watch::revive_of(c, r)
                == watch::ReviveView::Nothing
        }),
{
    laws_reading::the_living_are_in_the_table(later, pid);
    let b = confirm::confirmed(a, replies, now);
    assert(b.respawns.drop_last() =~= a.respawns);
}

/// Stopping a service signals its process, if it has one, and marks it; starting it again is
/// spawning its command when it does not run. Other services are left alone.
pub proof fn services_are_stopped_and_restarted(
    a: app::AppView,
    replies: Seq<Result<i32, String>>,
    now: u64,
    i: usize,
)
    requires
        i < a.manager.services.len() <= usize::MAX,
        replies.len() == 1,
    ensures
        a.pending == Some(app::PendingView::ServiceStop(i)) ==> ({
            let s = a.manager.services[i as int];
            let b = confirm::confirmed(a, replies, now);
            &&& confirm::calls_of(a).len() == 1
            &&& s.child is Some ==> confirm::calls_of(a)[0] == confirm::CallView::Terminate(
                s.child->0,
            )
            &&& s.child is None ==> confirm::calls_of(a)[0] == confirm::CallView::Nothing
            &&& b.manager == a.manager.stop(i as int, replies[0], now)
            &&& b.message == "stopping "@ + s.cfg.name
            &&& b == (app::AppView {
                pending: None,
                manager: b.manager,
                message: b.message,
                events: b.events,
                ..a
            })
        }),
        a.pending == Some(app::PendingView::ServiceRestart(i)) ==> ({
            let s = a.manager.services[i as int];
            let b = confirm::confirmed(a, replies, now);
            &&& confirm::calls_of(a).len() == 1
            &&& s.child is Some ==> confirm::calls_of(a)[0] == confirm::CallView::Terminate(
                s.child->0,
            )
            &&& s.child is None ==> confirm::calls_of(a)[0] == confirm::CallView::Spawn(
                manager::LaunchView { service: i, cmd: s.cfg.cmd, cwd: s.cfg.cwd },
            )
            &&& b.manager == a.manager.restart(i as int, replies[0], now)
            &&& s.child is None && replies[0] is Err ==> b.message == "restart failed: "@
                + replies[0]->Err_0@
            &&& s.child is Some || replies[0] is Ok ==> b.message == "restarting "@ + s.cfg.name
            &&& b == (app::AppView {
                pending: None,
                manager: b.manager,
                message: b.message,
                events: b.events,
                ..a
            })
        }),
{
}

/// A container is stopped or restarted under its own id.
pub proof fn containers_are_acted_on_by_id(
    a: app::AppView,
    replies: Seq<Result<i32, String>>,
    now: u64,
    id: Seq<char>,
    name: Seq<char>,
)
    ensures
        a.pending == Some(app::PendingView::ContainerStop { id, name }) ==> ({
            let b = confirm::confirmed(a, replies, now);
            &&& confirm::calls_of(a) == seq![confirm::CallView::DockerStop { id, name }]
            &&& b.message == "stopping container "@ + name + "…"@
            &&& b == (app::AppView { pending: None, message: b.message, events: b.events, ..a })
        }),
        a.pending == Some(app::PendingView::ContainerRestart { id, name }) ==> ({
            let b = confirm::confirmed(a, replies, now);
            &&& confirm::calls_of(a) == seq![confirm::CallView::DockerRestart { id, name }]
            &&& b.message == "restarting container "@ + name + "…"@
            &&& b == (app::AppView { pending: None, message: b.message, events: b.events, ..a })
        }),
{
}

// ------------------------------------------------------------------ stacks

/// Stopping several services, each once, stops each of them with its own reply and leaves the
/// others as they were.
pub proof fn each_is_stopped(
    m: manager::ManagerView,
    order: Seq<usize>,
    replies: Seq<Result<i32, String>>,
    now: u64,
)
    requires
        order.no_duplicates(),
        forall|k: int| 0 <= k < order.len() ==> (#[trigger] order[k]) < m.services.len(),
    ensures
        ({
            let after = confirm::stop_each(m, order, replies, now);
            &&& after.services.len() == m.services.len()
            &&& after.stack == m.stack
            &&& order.len() > 0 ==> after.unsaved
            &&& forall|k: int|
                0 <= k < order.len() ==> after.services[#[trigger] order[k] as int] == m.stop(
                    order[k] as int,
                    replies[k],
                    now,
                ).services[order[k] as int]
            &&& forall|i: int|
                0 <= i < m.services.len() && (forall|k: int|
                    0 <= k < order.len() ==> #[trigger] order[k] != i) ==> #[trigger] after.services[i]
                    == m.services[i]
        }),
    decreases order.len(),
{
    if order.len() > 0 {
        let rest = order.drop_last();
        assert forall|k: int| 0 <= k < rest.len() implies (#[trigger] rest[k]) < m.services.len() by {
            assert(rest[k] == order[k]);
        }
        assert(rest.no_duplicates()) by {
            assert forall|k: int, l: int|
                0 <= k < rest.len() && 0 <= l < rest.len() && k != l implies rest[k] != rest[l] by {
                assert(order[k] != order[l]);
            }
        }
        each_is_stopped(m, rest, replies, now);
        let before = confirm::stop_each(m, rest, replies, now);
        let after = confirm::stop_each(m, order, replies, now);
        let last = order[order.len() - 1];
        assert(before.services[last as int] == m.services[last as int]) by {
            assert forall|k: int| 0 <= k < rest.len() implies #[trigger] rest[k] != last by {
                assert(order[k] != order[order.len() - 1]);
            }
        }
        assert forall|k: int| 0 <= k < order.len() implies after.services[
            #[trigger] order[k] as int
        ] == m.stop(order[k] as int, replies[k], now).services[order[k] as int] by {
            if k < rest.len() {
                assert(rest[k] == order[k]);
                assert(order[k] != order[order.len() - 1]);
            }
        }
        assert forall|i: int|
            0 <= i < m.services.len() && (forall|k: int|
                0 <= k < order.len() ==> #[trigger] order[k] != i) implies #[trigger] after.services[i]
            == m.services[i] by {
            assert forall|k: int| 0 <= k < rest.len() implies #[trigger] rest[k] != i by {
                assert(rest[k] == order[k]);
            }
            assert(order[order.len() - 1] != i);
        }
    }
}

/// Restarting several services, each once, restarts each of them with its own reply and leaves
/// the others as they were.
pub proof fn each_is_restarted(
    m: manager::ManagerView,
    order: Seq<usize>,
    replies: Seq<Result<i32, String>>,
    now: u64,
)
    requires
        order.no_duplicates(),
        forall|k: int| 0 <= k < order.len() ==> (#[trigger] order[k]) < m.services.len(),
    ensures
        ({
            let after = confirm::restart_each(m, order, replies, now);
            &&& after.services.len() == m.services.len()
            &&& after.stack == m.stack
            &&& forall|k: int|
                0 <= k < order.len() ==> after.services[#[trigger] order[k] as int] == m.restart(
                    order[k] as int,
                    replies[k],
                    now,
                ).services[order[k] as int]
            &&& forall|i: int|
                0 <= i < m.services.len() && (forall|k: int|
                    0 <= k < order.len() ==> #[trigger] order[k] != i) ==> #[trigger] after.services[i]
                    == m.services[i]
        }),
    decreases order.len(),
{
    if order.len() > 0 {
        let rest = order.drop_last();
        assert forall|k: int| 0 <= k < rest.len() implies (#[trigger] rest[k]) < m.services.len() by {
            assert(rest[k] == order[k]);
        }
        assert(rest.no_duplicates()) by {
            assert forall|k: int, l: int|
                0 <= k < rest.len() && 0 <= l < rest.len() && k != l implies rest[k] != rest[l] by {
                assert(order[k] != order[l]);
            }
        }
        each_is_restarted(m, rest, replies, now);
        let before = confirm::restart_each(m, rest, replies, now);
        let after = confirm::restart_each(m, order, replies, now);
        let last = order[order.len() - 1];
        assert(before.services[last as int] == m.services[last as int]) by {
            assert forall|k: int| 0 <= k < rest.len() implies #[trigger] rest[k] != last by {
                assert(order[k] != order[order.len() - 1]);
            }
        }
        assert forall|k: int| 0 <= k < order.len() implies after.services[
            #[trigger] order[k] as int
        ] == m.restart(order[k] as int, replies[k], now).services[order[k] as int] by {
            if k < rest.len() {
                assert(rest[k] == order[k]);
                assert(order[k] != order[order.len() - 1]);
            }
        }
        assert forall|i: int|
            0 <= i < m.services.len() && (forall|k: int|
                0 <= k < order.len() ==> #[trigger] order[k] != i) implies #[trigger] after.services[i]
            == m.services[i] by {
            assert forall|k: int| 0 <= k < rest.len() implies #[trigger] rest[k] != i by {
                assert(rest[k] == order[k]);
            }
            assert(order[order.len() - 1] != i);
        }
    }
}

/// What is told of a stack's restart are the services that did not run and could not be started,
/// in order, each with its reason. The result says which they are.
pub proof fn failed_restarts_are_told(
    m: manager::ManagerView,
    order: Seq<usize>,
    replies: Seq<Result<i32, String>>,
    now: u64,
) -> (at: Seq<int>)
    requires
        order.no_duplicates(),
        order.len() == replies.len(),
        forall|k: int| 0 <= k < order.len() ==> (#[trigger] order[k]) < m.services.len(),
    ensures
        at.len() == confirm::restart_failures(m, order, replies, now).len(),
        forall|j: int|
            0 <= j < at.len() ==> 0 <= #[trigger] at[j] < order.len()
                && m.services[order[at[j]] as int].child is None && replies[at[j]] is Err
                && confirm::restart_failures(m, order, replies, now)[j] == "restart "@
                + m.services[order[at[j]] as int].cfg.name + " failed: "@ + replies[at[j]]->Err_0@,
        forall|j: int, l: int| 0 <= j < l < at.len() ==> #[trigger] at[j] < #[trigger] at[l],
        forall|k: int|
            0 <= k < order.len() && m.services[#[trigger] order[k] as int].child is None
                && replies[k] is Err ==> at.contains(k),
{
    lemma_failures(m, order, replies, now)
}

proof fn lemma_failures(
    m: manager::ManagerView,
    order: Seq<usize>,
    replies: Seq<Result<i32, String>>,
    now: u64,
) -> (at: Seq<int>)
    requires
        order.no_duplicates(),
        order.len() <= replies.len(),
        forall|k: int| 0 <= k < order.len() ==> (#[trigger] order[k]) < m.services.len(),
    ensures
        at.len() == confirm::restart_failures(m, order, replies, now).len(),
        forall|j: int|
            0 <= j < at.len() ==> 0 <= #[trigger] at[j] < order.len()
                && m.services[order[at[j]] as int].child is None && replies[at[j]] is Err
                && confirm::restart_failures(m, order, replies, now)[j] == "restart "@
                + m.services[order[at[j]] as int].cfg.name + " failed: "@ + replies[at[j]]->Err_0@,
        forall|j: int, l: int| 0 <= j < l < at.len() ==> #[trigger] at[j] < #[trigger] at[l],
        forall|k: int|
            0 <= k < order.len() && m.services[#[trigger] order[k] as int].child is None
                && replies[k] is Err ==> at.contains(k),
    decreases order.len(),
{
    if order.len() == 0 {
        Seq::empty()
    } else {
        let rest = order.drop_last();
        assert forall|k: int| 0 <= k < rest.len() implies (#[trigger] rest[k]) < m.services.len() by {
            assert(rest[k] == order[k]);
        }
        assert(rest.no_duplicates()) by {
            assert forall|k: int, l: int|
                0 <= k < rest.len() && 0 <= l < rest.len() && k != l implies rest[k] != rest[l] by {
                assert(order[k] != order[l]);
            }
        }
        let before = lemma_failures(m, rest, replies, now);
        each_is_restarted(m, rest, replies, now);
        let n = order.len() - 1;
        let last = order[n];
        let done = confirm::restart_each(m, rest, replies, now);
        assert(done.services[last as int] == m.services[last as int]) by {
            assert forall|k: int| 0 <= k < rest.len() implies #[trigger] rest[k] != last by {
                assert(order[k] != order[n]);
            }
        }
        let told = confirm::restart_failures(m, rest, replies, now);
        let all = confirm::restart_failures(m, order, replies, now);
        let at = if m.services[last as int].child is None && replies[n] is Err {
            before.push(n)
        } else {
            before
        };
        assert forall|j: int| 0 <= j < at.len() implies 0 <= #[trigger] at[j] < order.len()
            && m.services[order[at[j]] as int].child is None && replies[at[j]] is Err && all[j]
            == "restart "@ + m.services[order[at[j]] as int].cfg.name + " failed: "@
            + replies[at[j]]->Err_0@ by {
            if j < before.len() {
                assert(at[j] == before[j]);
                assert(rest[before[j]] == order[before[j]]);
                assert(all[j] == told[j]);
            }
        }
        assert forall|k: int|
            0 <= k < order.len() && m.services[#[trigger] order[k] as int].child is None
                && replies[k] is Err implies at.contains(k) by {
            if k < n {
                assert(rest[k] == order[k]);
                assert(before.contains(k));
                let j = choose|j: int| 0 <= j < before.len() && before[j] == k;
                assert(at[j] == k);
            } else {
                assert(at[before.len() as int] == k);
            }
        }
        at
    }
}

/// A stack is stopped in reverse order and restarted in order: call and reply of each place are
/// of the same service.
pub proof fn stacks_are_stopped_and_restarted(
    a: app::AppView,
    replies: Seq<Result<i32, String>>,
    now: u64,
    k: int,
)
    requires
        0 <= k < a.manager.stack_order().len(),
        a.manager.services.len() <= usize::MAX,
        forall|j: int|
            0 <= j < a.manager.stack_order().len() ==> (#[trigger] a.manager.stack_order()[j])
                < a.manager.services.len(),
        a.manager.stack_order().no_duplicates(),
    ensures
        a.pending == Some(app::PendingView::StackStop) ==> ({
            let n = a.manager.stack_order().len();
            let i = a.manager.stack_order()[n - 1 - k] as int;
            let s = a.manager.services[i];
            let b = confirm::confirmed(a, replies, now);
            &&& confirm::calls_of(a).len() == n
            &&& s.child is Some ==> confirm::calls_of(a)[k] == confirm::CallView::Terminate(
                s.child->0,
            )
            &&& s.child is None ==> confirm::calls_of(a)[k] == confirm::CallView::Nothing
            &&& b.manager.services[i] == a.manager.stop(i, replies[k], now).services[i]
            &&& b.message == "stopping the stack"@
            &&& b == (app::AppView {
                pending: None,
                manager: b.manager,
                message: b.message,
                events: b.events,
                ..a
            })
        }),
        a.pending == Some(app::PendingView::StackRestart) ==> ({
            let n = a.manager.stack_order().len();
            let i = a.manager.stack_order()[k] as int;
            let s = a.manager.services[i];
            let b = confirm::confirmed(a, replies, now);
            &&& confirm::calls_of(a).len() == n
            &&& s.child is Some ==> confirm::calls_of(a)[k] == confirm::CallView::Terminate(
                s.child->0,
            )
            &&& s.child is None ==> confirm::calls_of(a)[k] == confirm::CallView::Spawn(
                manager::LaunchView { service: i as usize, cmd: s.cfg.cmd, cwd: s.cfg.cwd },
            )
            &&& b.manager.services[i] == a.manager.restart(i, replies[k], now).services[i]
            &&& confirm::restart_failures(
                a.manager,
                a.manager.stack_order(),
                replies,
                now,
            ).len() == 0 ==> b.message == "restarting the stack"@
            &&& confirm::restart_failures(
                a.manager,
                a.manager.stack_order(),
                replies,
                now,
            ).len() > 0 ==> b.message == confirm::restart_failures(
                a.manager,
                a.manager.stack_order(),
                replies,
                now,
            ).last()
            &&& b == (app::AppView {
                pending: None,
                manager: b.manager,
                message: b.message,
                events: b.events,
                ..a
            })
        }),
{
    let order = a.manager.stack_order();
    let back = order.reverse();
    let n = order.len();
    assert forall|j: int| 0 <= j < back.len() implies (#[trigger] back[j])
        < a.manager.services.len() by {
        assert(back[j] == order[n - 1 - j]);
    }
    assert(back.no_duplicates()) by {
        assert forall|j: int, l: int|
            0 <= j < back.len() && 0 <= l < back.len() && j != l implies back[j] != back[l] by {
            assert(order[n - 1 - j] != order[n - 1 - l]);
        }
    }
    each_is_stopped(a.manager, back, replies, now);
    each_is_restarted(a.manager, order, replies, now);
    assert(back[k] == order[n - 1 - k]);
    assert(order[k] == order[k]);
    let said = app::AppView {
        manager: confirm::restart_each(a.manager, order, replies, now),
        pending: None,
        ..a
    }.say("restarting the stack"@);
    lemma_said(said, confirm::restart_failures(a.manager, order, replies, now));
}

proof fn lemma_said(a: app::AppView, messages: Seq<Seq<char>>)
    ensures
        ({
            let b = a.say_all(messages);
            b == (app::AppView { message: b.message, events: b.events, ..a })
        }),
    decreases messages.len(),
{
    if messages.len() > 0 {
        lemma_said(a, messages.drop_last());
    }
}

// ------------------------------------------------------------------ messages

/// What is said becomes the message and the last event; the events before it stay, the oldest
/// making room once there are a thousand.
pub proof fn what_is_said_is_kept(a: app::AppView, message: Seq<char>)
    requires
        a.events.len() <= 1_000,
    ensures
        ({
            let b = a.say(message);
            &&& b.message == message
            &&& 0 < b.events.len() <= 1_000
            &&& b.events.last() == message
            &&& a.events.len() < 1_000 ==> b.events.drop_last() == a.events
            &&& a.events.len() == 1_000 ==> b.events.drop_last() == a.events.skip(1)
            &&& b == (app::AppView { message, events: b.events, ..a })
        }),
{
    let b = a.say(message);
    if a.events.len() < 1_000 {
        assert(b.events.drop_last() =~= a.events);
    } else {
        assert(b.events.drop_last() =~= a.events.skip(1));
    }
}

/// Saying several things is saying each in order: the last stays as the message.
pub proof fn things_are_said_in_order(a: app::AppView, messages: Seq<Seq<char>>, last: Seq<char>)
    ensures
        a.say_all(Seq::empty()) == a,
        a.say_all(messages.push(last)) == a.say_all(messages).say(last),
        a.say_all(messages.push(last)).message == last,
{
    assert(messages.push(last).drop_last() =~= messages);
}

// ------------------------------------------------------------------ adopting

/// Adopting a process makes it a service with its name, its port, its directory and its command
/// line with blanks between the words, without a health URL and without automatic restarts. It
/// can be asked for the process of the selected row and for one whose restart is pending.
pub proof fn adoptions_describe_the_process(a: app::AppView, lookup: system::LookupView)
    ensures
        ({
            let b = actions::adopt_requested(a, lookup);
            let cfg = services::ServiceConfigView {
                name: Seq::empty(),
                cmd: Seq::empty(),
                cwd: None,
                port: None,
                health_url: None,
                auto_restart: false,
            };
            &&& b == (app::AppView {
                pending: b.pending,
                message: b.message,
                events: b.events,
                ..a
            })
            &&& a.pending matches Some(
                app::PendingView::Restart { name, cmd, cwd, port, .. },
            ) ==> {
                let of = services::ServiceConfigView {
                    name,
                    cmd: split::join(cmd, " "@),
                    cwd,
                    port,
                    ..cfg
                };
                &&& cmd.len() == 0 ==> b.pending == a.pending && b.message
                    == "no command line captured; can't adopt"@
                &&& cmd.len() > 0 && adopt::config_quotable(of) ==> b.pending == Some(
                    app::PendingView::Adopt(of),
                ) && b.message == a.message
                &&& cmd.len() > 0 && !adopt::config_quotable(of) ==> b.pending == a.pending
            }
            &&& !(a.pending is Some && a.pending->0 is Restart) ==> match a.selected_row() {
                None => b == a,
                Some(row) => if row.kind is Process {
                    let cmd = rows::known_command(a.system, row.pid->0, lookup);
                    let of = services::ServiceConfigView {
                        name: row.name,
                        cmd: split::join(cmd, " "@),
                        cwd: system::cwd_of(system::process_of(a.system, row.pid->0), lookup),
                        port: row.port,
                        ..cfg
                    };
                    &&& cmd.len() == 0 ==> b.pending == a.pending && b.message
                        == "no command line captured; can't adopt"@
                    &&& cmd.len() > 0 && adopt::config_quotable(of) ==> b.pending == Some(
                        app::PendingView::Adopt(of),
                    ) && b.message == a.message
                    &&& cmd.len() > 0 && !adopt::config_quotable(of) ==> b.pending == a.pending
                } else {
                    b.pending == a.pending && b.message == "a adopts external processes only"@
                },
            }
        }),
{
}

/// A text can be quoted unless the same quotation mark stands in it two hundred and fifty-six
/// times in a row. The result says where they stand.
pub proof fn texts_without_long_runs_can_be_quoted(s: Seq<char>, i: int, c: char) -> (at: (int, char))
    ensures
        s.len() < 256 ==> adopt::quotable(s),
        (c == '\'' || c == '"') && 0 <= i && i + 256 <= s.len() && (forall|j: int|
            i <= j < i + 256 ==> #[trigger] s[j] == c) ==> !adopt::quotable(s),
        !adopt::quotable(s) ==> (at.1 == '\'' || at.1 == '"') && 0 <= at.0 && at.0 + 256 <= s.len()
            && forall|j: int| at.0 <= j < at.0 + 256 ==> #[trigger] s[j] == at.1,
{
    if (c == '\'' || c == '"') && 0 <= i && i + 256 <= s.len() && (forall|j: int|
        i <= j < i + 256 ==> #[trigger] s[j] == c) {
        assert(adopt::long_run(s, i, c));
    }
    if !adopt::no_long_run(s, '\'') {
        (choose|i: int| #[trigger] adopt::long_run(s, i, '\''), '\'')
    } else {
        (choose|i: int| #[trigger] adopt::long_run(s, i, '"'), '"')
    }
}

/// An adoption that is confirmed appends the service to the configuration and adds it, stopped,
/// after the others; one that cannot be written adds nothing.
pub proof fn adoptions_add_a_service(
    a: app::AppView,
    replies: Seq<Result<i32, String>>,
    now: u64,
    cfg: services::ServiceConfigView,
)
    requires
        a.pending == Some(app::PendingView::Adopt(cfg)),
        replies.len() == 1,
    ensures
        ({
            let b = confirm::confirmed(a, replies, now);
            &&& confirm::calls_of(a) == seq![
                confirm::CallView::AppendConfig(adopt::service_block_text(cfg)),
            ]
            &&& b.pending is None
            &&& replies[0] is Ok ==> {
                let s = b.manager.services.last();
                &&& b.manager.services.len() == a.manager.services.len() + 1
                &&& b.manager.services.drop_last() == a.manager.services
                &&& b.manager.stack == a.manager.stack
                &&& b.manager.unsaved == a.manager.unsaved
                &&& s.cfg == cfg
                &&& s.child is None
                &&& s.status == services::Status::Stopped
                &&& s.backoff == 1_000
                &&& s.logs.len() == 0
                &&& !s.user_stopped && !s.restart_pending && s.restart_at is None
                    && s.stop_requested is None && s.started is None
                &&& b.message == "adopted "@ + cfg.name + " into "@ + "dev-panel.toml"@
            }
            &&& replies[0] matches Err(e) ==> b.message == "adopt failed: "@ + e@ && b == (
            app::AppView { pending: None, message: b.message, events: b.events, ..a })
            &&& b == (app::AppView {
                pending: None,
                manager: b.manager,
                message: b.message,
                events: b.events,
                rows: b.rows,
                table: b.table,
                cpu_hist: b.cpu_hist,
                ..a
            })
        }),
{
    assert(a.manager.services.push(services::fresh(cfg)).drop_last() =~= a.manager.services);
}

/// What is appended names each thing that the service has, on a line of its own, and nothing that
/// it has not.
pub proof fn appended_services_are_complete(cfg: services::ServiceConfigView)
    ensures
        ({
            let head = "\n[[service]]\nname = "@ + adopt::toml_literal(cfg.name) + "\ncmd = "@
                + adopt::toml_literal(cfg.cmd) + "\n"@;
            let t = adopt::service_block_text(cfg);
            &&& cfg.cwd is None && cfg.port is None ==> t == head
            &&& cfg.cwd is Some && cfg.port is None ==> t == head + "cwd = "@ + adopt::toml_literal(
                cfg.cwd->0,
            ) + "\n"@
            &&& cfg.cwd is None && cfg.port is Some ==> t == head + "port = "@ + text::decimal(
                cfg.port->0 as nat,
            ) + "\n"@
            &&& cfg.cwd is Some && cfg.port is Some ==> t == head + "cwd = "@ + adopt::toml_literal(
                cfg.cwd->0,
            ) + "\n"@ + "port = "@ + text::decimal(cfg.port->0 as nat) + "\n"@
        }),
{
    let head = "\n[[service]]\nname = "@ + adopt::toml_literal(cfg.name) + "\ncmd = "@
        + adopt::toml_literal(cfg.cmd) + "\n"@;
    let t = adopt::service_block_text(cfg);
    let none = Seq::<char>::empty();
    let p = "port = "@ + text::decimal(
        match cfg.port {
            Some(p) => p as nat,
            None => 0,
        },
    ) + "\n"@;
    let d = "cwd = "@ + adopt::toml_literal(
        match cfg.cwd {
            Some(d) => d,
            None => none,
        },
    ) + "\n"@;
    if cfg.cwd is None && cfg.port is None {
        assert(t =~= head);
    } else if cfg.cwd is Some && cfg.port is None {
        assert(t =~= head + d);
        assert(head + d =~= head + "cwd = "@ + adopt::toml_literal(cfg.cwd->0) + "\n"@);
    } else if cfg.cwd is None {
        assert(t =~= head + p);
        assert(head + p =~= head + "port = "@ + text::decimal(cfg.port->0 as nat) + "\n"@);
    } else {
        assert(t =~= head + d + p);
        assert(head + d + p =~= head + "cwd = "@ + adopt::toml_literal(cfg.cwd->0) + "\n"@
            + "port = "@ + text::decimal(cfg.port->0 as nat) + "\n"@);
    }
}

/// Asking for the stack makes what was asked pending when there are services, and says that there
/// are none otherwise.
pub proof fn stacks_are_asked_for(a: app::AppView, pending: app::PendingView)
    ensures
        a.manager.services.len() > 0 ==> actions::stack_requested(a, pending) == (app::AppView {
            pending: Some(pending),
            ..a
        }),
        a.manager.services.len() == 0 ==> actions::stack_requested(a, pending).pending == a.pending
            && actions::stack_requested(a, pending).message == "no services configured ("@
            + "dev-panel.toml"@ + ")"@,
{
}

// ------------------------------------------------------------------ questions

/// There is a question exactly when something is pending, and it names what it is about.
pub proof fn questions_name_their_subject(a: app::AppView)
    ensures
        actions::question(a) is Some <==> a.pending is Some,
        a.pending matches Some(app::PendingView::Kill { pid, name }) ==> actions::question(a)
            == Some("Kill "@ + text::signed_decimal(pid as int) + " ("@ + name + ")?"@),
        a.pending matches Some(app::PendingView::Restart { pid, name, strategy, .. })
            ==> actions::question(a) == Some(
            match strategy {
                app::StrategyView::Systemd(unit) => "Restart "@ + name + " ("@
                    + text::signed_decimal(pid as int) + ") via systemctl restart "@ + unit + "?"@,
                app::StrategyView::Launchd(label) => "Restart "@ + name + " ("@
                    + text::signed_decimal(pid as int) + ") via launchctl kickstart -k "@ + label
                    + "?"@,
                _ => "Restart "@ + text::signed_decimal(pid as int) + " ("@ + name + ")?"@,
            },
        ),
        a.pending matches Some(app::PendingView::ServiceStop(i)) ==> actions::question(a) == Some(
            "Stop service "@ + a.manager.services[i as int].cfg.name + "?"@,
        ),
        a.pending matches Some(app::PendingView::ServiceRestart(i)) ==> actions::question(a)
            == Some("Restart service "@ + a.manager.services[i as int].cfg.name + "?"@),
        a.pending matches Some(app::PendingView::ContainerStop { id, name }) ==> actions::question(
            a,
        ) == Some("Stop container "@ + name + "?"@),
        a.pending matches Some(app::PendingView::ContainerRestart { id, name })
            ==> actions::question(a) == Some("Restart container "@ + name + "?"@),
        a.pending matches Some(app::PendingView::Adopt(cfg)) ==> actions::question(a) == Some(
            "Adopt "@ + cfg.name + " into "@ + "dev-panel.toml"@ + "?"@,
        ),
        a.pending == Some(app::PendingView::StackStop) ==> actions::question(a) == Some(
            "Stop the whole stack?"@,
        ),
        a.pending == Some(app::PendingView::StackRestart) ==> actions::question(a) == Some(
            "Restart the whole stack?"@,
        ),
{
}

/// What will run is shown before a restart: how, what and where; of other actions nothing more is
/// shown.
pub proof fn restarts_are_previewed(a: app::AppView)
    ensures
        a.pending matches Some(app::PendingView::Restart { cmd, cwd, strategy, .. }) ==> ({
            let p = actions::preview(a);
            &&& p.len() == 3
            &&& p[0] == "strategy: "@ + actions::strategy_label(strategy)
            &&& split::join(cmd, " "@).len() > 0 ==> p[1] == "cmd: "@ + split::join(cmd, " "@)
            &&& split::join(cmd, " "@).len() == 0 ==> p[1] == "cmd: "@ + "-"@
            &&& cwd is Some ==> p[2] == "cwd: "@ + cwd->0
            &&& cwd is None ==> p[2] == "cwd: "@ + "-"@
        }),
        a.pending matches Some(app::PendingView::ServiceRestart(i)) ==> ({
            let p = actions::preview(a);
            let cfg = a.manager.services[i as int].cfg;
            &&& p.len() == 3
            &&& p[0] == "strategy: "@ + "managed"@
            &&& cfg.cmd.len() > 0 ==> p[1] == "cmd: "@ + cfg.cmd
            &&& cfg.cmd.len() == 0 ==> p[1] == "cmd: "@ + "-"@
            &&& cfg.cwd is Some ==> p[2] == "cwd: "@ + cfg.cwd->0
            &&& cfg.cwd is None ==> p[2] == "cwd: "@ + "-"@
        }),
        !(a.pending is Some && (a.pending->0 is Restart || a.pending->0 is ServiceRestart))
            ==> actions::preview(a).len() == 0,
        actions::strategy_label(app::StrategyView::Naive) == "naive"@,
        actions::strategy_label(app::StrategyView::Shell) == "shell"@,
        actions::strategy_label(app::StrategyView::Unknown) == "unknown"@,
        actions::strategy_label(app::StrategyView::Docker) == "docker"@,
        actions::strategy_label(app::StrategyView::Managed) == "managed"@,
        forall|i: usize| #[trigger] actions::strategy_label(app::StrategyView::Configured(i))
            == "configured"@,
        forall|u: Seq<char>| #[trigger] actions::strategy_label(app::StrategyView::Systemd(u))
            == "systemd"@,
        forall|l: Seq<char>| #[trigger] actions::strategy_label(app::StrategyView::Launchd(l))
            == "launchd"@,
{
}

// ------------------------------------------------------------------ watching

/// A process that was asked to exit is waited for while it is alive and three seconds are not
/// over; those that are waited for stay in order. The result says which of them are.
pub proof fn asked_processes_are_waited_for(
    a: app::AppView,
    replies: Seq<Result<(), String>>,
    now: u64,
) -> (at: Seq<int>)
    ensures
        at.len() == watch::kills_watched(a, replies, now).term_sent.len(),
        forall|k: int|
            0 <= k < at.len() ==> 0 <= #[trigger] at[k] < a.term_sent.len()
                && watch::kills_watched(a, replies, now).term_sent[k] == a.term_sent[at[k]],
        forall|k: int, l: int| 0 <= k < l < at.len() ==> #[trigger] at[k] < #[trigger] at[l],
        forall|i: int|
            0 <= i < a.term_sent.len() ==> (at.contains(i) <==> a.alive(
                (#[trigger] a.term_sent[i]).0,
            ) && now < a.term_sent[i].1 + 3_000),
        ({
            let b = watch::kills_watched(a, replies, now);
            b == (app::AppView {
                term_sent: b.term_sent,
                message: b.message,
                events: b.events,
                ..a
            })
        }),
{
    let f = |s: (i32, u64)| watch::still_waiting(a, s, now);
    let at = laws_text::what_is_given_is_listed(a.term_sent, f);
    let kept = split::filter_map(a.term_sent, f);
    lemma_said(
        app::AppView { term_sent: kept, ..a },
        watch::kill_messages(a, a.term_sent, replies, now),
    );
    assert forall|k: int| 0 <= k < at.len() implies 0 <= #[trigger] at[k] < a.term_sent.len()
        && kept[k] == a.term_sent[at[k]] by {
        assert(f(a.term_sent[at[k]]) == Some(kept[k]));
    }
    assert forall|i: int| 0 <= i < a.term_sent.len() implies (at.contains(i) <==> a.alive(
        (#[trigger] a.term_sent[i]).0,
    ) && now < a.term_sent[i].1 + 3_000) by {
        if at.contains(i) {
            let k = choose|k: int| 0 <= k < at.len() && at[k] == i;
            assert(f(a.term_sent[at[k]]) == Some(kept[k]));
        }
        if f(a.term_sent[i]) is Some {
            assert(at.contains(i));
        }
    }
    at
}

/// The processes that are killed are those that are still alive three seconds after they were
/// asked to exit, in order. The result says which they are.
pub proof fn stubborn_processes_are_killed(a: app::AppView, now: u64) -> (at: Seq<int>)
    ensures
        at.len() == watch::overdue(a, a.term_sent, now).len(),
        forall|k: int|
            0 <= k < at.len() ==> 0 <= #[trigger] at[k] < a.term_sent.len() && watch::overdue(
                a,
                a.term_sent,
                now,
            )[k] == a.term_sent[at[k]].0,
        forall|k: int, l: int| 0 <= k < l < at.len() ==> #[trigger] at[k] < #[trigger] at[l],
        forall|i: int|
            0 <= i < a.term_sent.len() ==> (at.contains(i) <==> a.alive(
                (#[trigger] a.term_sent[i]).0,
            ) && now >= a.term_sent[i].1 + 3_000),
{
    let f = |s: (i32, u64)| watch::overdue_pid(a, s, now);
    let at = laws_text::what_is_given_is_listed(a.term_sent, f);
    let listed = split::filter_map(a.term_sent, f);
    assert forall|k: int| 0 <= k < at.len() implies 0 <= #[trigger] at[k] < a.term_sent.len()
        && listed[k] == a.term_sent[at[k]].0 by {
        assert(f(a.term_sent[at[k]]) == Some(listed[k]));
    }
    assert forall|i: int| 0 <= i < a.term_sent.len() implies (at.contains(i) <==> a.alive(
        (#[trigger] a.term_sent[i]).0,
    ) && now >= a.term_sent[i].1 + 3_000) by {
        if at.contains(i) {
            let k = choose|k: int| 0 <= k < at.len() && at[k] == i;
            assert(f(a.term_sent[at[k]]) == Some(listed[k]));
        }
        if f(a.term_sent[i]) is Some {
            assert(at.contains(i));
        }
    }
    at
}

/// Of each process that was asked to exit it is told when it is gone or when it had to be killed,
/// and nothing while it is waited for.
pub proof fn ends_are_told(
    a: app::AppView,
    sent: Seq<(i32, u64)>,
    last: (i32, u64),
    replies: Seq<Result<(), String>>,
    now: u64,
)
    ensures
        ({
            let before = watch::kill_messages(a, sent, replies, now);
            let after = watch::kill_messages(a, sent.push(last), replies, now);
            let pid = text::signed_decimal(last.0 as int);
            let n = watch::overdue(a, sent, now).len() as int;
            &&& watch::kill_messages(a, Seq::empty(), replies, now).len() == 0
            &&& !a.alive(last.0) ==> after == before.push(pid + " exited after SIGTERM"@)
            &&& a.alive(last.0) && now < last.1 + 3_000 ==> after == before
            &&& a.alive(last.0) && now >= last.1 + 3_000 && replies[n] is Ok ==> after
                == before.push("SIGKILL → "@ + pid + " (ignored SIGTERM)"@)
            &&& a.alive(last.0) && now >= last.1 + 3_000 && replies[n] is Err ==> after
                == before.push("SIGKILL "@ + pid + " failed: "@ + replies[n]->Err_0@)
        }),
{
    assert(sent.push(last).drop_last() =~= sent);
}

/// A restart waits for its process for fifteen seconds and is then given up; when the process is
/// gone in time its command line is run and watched, or its service is started.
pub proof fn restarts_are_carried_out_or_given_up(
    a: app::AppView,
    at: int,
    reply: Result<i32, String>,
    now: u64,
)
    requires
        0 <= at < a.respawns.len(),
    ensures
        ({
            let r = a.respawns[at];
            let b = watch::respawn_watched(a, at, reply, now);
            let pid = text::signed_decimal(r.pid as int);
            &&& a.alive(r.pid) && now < r.since + 15_000 ==> b == a
            &&& a.alive(r.pid) && now >= r.since + 15_000 ==> b.respawns == a.respawns.remove(at)
                && b.message == pid + " won't exit; respawn abandoned"@ && b.manager == a.manager
                && b.respawn_watches == a.respawn_watches
            &&& !a.alive(r.pid) ==> {
                &&& b.respawns == a.respawns.remove(at)
                &&& b.term_sent == a.term_sent
                &&& b.pending == a.pending
                &&& r.revival matches app::RevivalView::Command { cmd, cwd, shell } ==> {
                    &&& b.manager == a.manager
                    &&& reply matches Ok(new) ==> {
                        &&& b.respawn_watches.len() == a.respawn_watches.len() + 1
                        &&& b.respawn_watches.drop_last() == a.respawn_watches
                        &&& b.respawn_watches.last().pid == new
                        &&& b.respawn_watches.last().cmd == cmd
                        &&& b.respawn_watches.last().since == now
                        &&& b.message == "respawned as "@ + text::signed_decimal(new as int)
                    }
                    &&& reply matches Err(e) ==> b.respawn_watches == a.respawn_watches && b.message
                        == "respawn failed: "@ + e@
                }
                &&& b == (app::AppView {
                    respawns: b.respawns,
                    respawn_watches: b.respawn_watches,
                    manager: b.manager,
                    message: b.message,
                    events: b.events,
                    ..a
                })
                &&& r.revival matches app::RevivalView::Service(i) ==> {
                    let s = a.manager.services[i as int];
                    &&& b.respawn_watches == a.respawn_watches
                    &&& b.manager == a.manager.start(i as int, reply, now)
                    &&& s.child is Some ==> b.message == s.cfg.name + " is already running"@
                    &&& s.child is None && reply is Ok ==> b.message == "started "@ + s.cfg.name
                    &&& s.child is None && reply is Err ==> b.message == "start "@ + s.cfg.name
                        + " failed: "@ + reply->Err_0@
                }
            }
        }),
{
    let b = watch::respawn_watched(a, at, reply, now);
    if a.respawns[at].revival is Command && reply is Ok && !a.alive(a.respawns[at].pid) {
        assert(b.respawn_watches.drop_last() =~= a.respawn_watches);
    }
}

/// A command line that was run again is watched while it runs, for half a second; those that are
/// watched stay in order. The result says which of them are.
pub proof fn respawns_are_watched(
    a: app::AppView,
    states: Seq<watch::ChildState>,
    now: u64,
) -> (at: Seq<int>)
    ensures
        at.len() == watch::crashes_watched(a, states, now).respawn_watches.len(),
        forall|k: int|
            0 <= k < at.len() ==> 0 <= #[trigger] at[k] < a.respawn_watches.len()
                && watch::crashes_watched(a, states, now).respawn_watches[k]
                == a.respawn_watches[at[k]],
        forall|k: int, l: int| 0 <= k < l < at.len() ==> #[trigger] at[k] < #[trigger] at[l],
        forall|i: int|
            0 <= i < a.respawn_watches.len() ==> (at.contains(i) <==> states[i] is Running && now
                < (#[trigger] a.respawn_watches[i]).since + 500),
        ({
            let b = watch::crashes_watched(a, states, now);
            b == (app::AppView {
                respawn_watches: b.respawn_watches,
                message: b.message,
                events: b.events,
                ..a
            })
        }),
{
    lemma_said(
        app::AppView {
            respawn_watches: watch::watches_kept(a.respawn_watches, states, now),
            ..a
        },
        watch::crash_messages(a.respawn_watches, states),
    );
    lemma_watches(a.respawn_watches, states, now)
}

proof fn lemma_watches(
    watches: Seq<app::RespawnWatchView>,
    states: Seq<watch::ChildState>,
    now: u64,
) -> (at: Seq<int>)
    ensures
        at.len() == watch::watches_kept(watches, states, now).len(),
        forall|k: int|
            0 <= k < at.len() ==> 0 <= #[trigger] at[k] < watches.len() && watch::watches_kept(
                watches,
                states,
                now,
            )[k] == watches[at[k]],
        forall|k: int, l: int| 0 <= k < l < at.len() ==> #[trigger] at[k] < #[trigger] at[l],
        forall|i: int|
            0 <= i < watches.len() ==> (at.contains(i) <==> states[i] is Running && now
                < (#[trigger] watches[i]).since + 500),
    decreases watches.len(),
{
    if watches.len() == 0 {
        Seq::empty()
    } else {
        let rest = watches.drop_last();
        let before = lemma_watches(rest, states, now);
        let n = watches.len() - 1;
        let kept = watch::watches_kept(rest, states, now);
        let all = watch::watches_kept(watches, states, now);
        let on = states[n] is Running && now < watches[n].since + 500;
        let at = if on {
            before.push(n)
        } else {
            before
        };
        assert forall|k: int| 0 <= k < at.len() implies 0 <= #[trigger] at[k] < watches.len()
            && all[k] == watches[at[k]] by {
            if k < before.len() {
                assert(at[k] == before[k]);
                assert(all[k] == kept[k]);
                assert(rest[before[k]] == watches[before[k]]);
            }
        }
        assert forall|i: int| 0 <= i < watches.len() implies (at.contains(i) <==> states[i]
            is Running && now < (#[trigger] watches[i]).since + 500) by {
            if i < n {
                assert(rest[i] == watches[i]);
                if at.contains(i) {
                    let k = choose|k: int| 0 <= k < at.len() && at[k] == i;
                    assert(before[k] == i);
                }
                if before.contains(i) {
                    let k = choose|k: int| 0 <= k < before.len() && before[k] == i;
                    assert(at[k] == i);
                }
            } else {
                if on {
                    assert(at[before.len() as int] == n);
                }
                if at.contains(i) {
                    let k = choose|k: int| 0 <= k < at.len() && at[k] == i;
                    if k < before.len() {
                        assert(0 <= before[k] < rest.len());
                    }
                }
            }
        }
        at
    }
}

/// A command line that exited is told with its status and what it wrote as errors, and only that.
pub proof fn early_exits_are_told(
    watches: Seq<app::RespawnWatchView>,
    last: app::RespawnWatchView,
    states: Seq<watch::ChildState>,
)
    ensures
        watch::crash_messages(Seq::empty(), states).len() == 0,
        ({
            let before = watch::crash_messages(watches, states);
            let after = watch::crash_messages(watches.push(last), states);
            match states[watches.len() as int] {
                watch::ChildState::Exited { status, stderr } => {
                    let said = split::trim(stderr@);
                    &&& after.len() == before.len() + 1
                    &&& after.drop_last() == before
                    &&& after.last() == "respawn of "@ + split::join(last.cmd, " "@)
                        + " exited immediately ("@ + status@ + "): "@ + (if said.len() == 0 {
                        "no output"@
                    } else {
                        said
                    })
                        + ". Naive restart runs outside the original shell/wrapper env — consider making it a managed service in "@
                        + "dev-panel.toml"@ + " instead."@
                },
                _ => after == before,
            }
        }),
{
    assert(watches.push(last).drop_last() =~= watches);
    let before = watch::crash_messages(watches, states);
    let after = watch::crash_messages(watches.push(last), states);
    if states[watches.len() as int] is Exited {
        assert(after.drop_last() =~= before);
    }
}

/// What background work has to say is said in order, and the work that has not ended is waited
/// for, and no other.
pub proof fn background_work_is_waited_for(states: Seq<watch::OpState>, n: nat, i: usize)
    requires
        n <= states.len() <= usize::MAX,
    ensures
        watch::ops_waiting(states, n).contains(i) <==> i < n && states[i as int] is Waiting,
        forall|k: int, l: int|
            0 <= k < l < watch::ops_waiting(states, n).len() ==> (#[trigger] watch::ops_waiting(
                states,
                n,
            )[k]) < (#[trigger] watch::ops_waiting(states, n)[l]),
    decreases n,
{
    if n > 0 {
        background_work_is_waited_for(states, (n - 1) as nat, i);
        let before = watch::ops_waiting(states, (n - 1) as nat);
        let all = watch::ops_waiting(states, n);
        if all.contains(i) {
            let k = choose|k: int| 0 <= k < all.len() && all[k] == i;
            if k < before.len() {
                assert(before[k] == i);
            }
        }
        if before.contains(i) {
            let k = choose|k: int| 0 <= k < before.len() && before[k] == i;
            assert(all[k] == i);
        }
        if i == n - 1 && states[n - 1] is Waiting {
            assert(all[before.len() as int] == i);
        }
        lemma_ops(states, (n - 1) as nat);
        assert forall|k: int, l: int| 0 <= k < l < all.len() implies (#[trigger] all[k]) < (
        #[trigger] all[l]) by {
            assert(all[k] == before[k]);
            assert(before[k] < n - 1);
            if l < before.len() {
                assert(all[l] == before[l]);
            }
        }
    }
}

proof fn lemma_ops(states: Seq<watch::OpState>, n: nat)
    requires
        n <= states.len() <= usize::MAX,
    ensures
        forall|k: int|
            0 <= k < watch::ops_waiting(states, n).len() ==> (#[trigger] watch::ops_waiting(
                states,
                n,
            )[k]) < n,
    decreases n,
{
    if n > 0 {
        lemma_ops(states, (n - 1) as nat);
        let before = watch::ops_waiting(states, (n - 1) as nat);
        let all = watch::ops_waiting(states, n);
        assert forall|k: int| 0 <= k < all.len() implies (#[trigger] all[k]) < n by {
            if k < before.len() {
                assert(all[k] == before[k]);
                assert(before[k] < n - 1);
            }
        }
    }
}

/// Each piece of background work that has ended says its message, in order.
pub proof fn background_work_is_told(states: Seq<watch::OpState>) -> (at: Seq<int>)
    ensures
        at.len() == watch::op_messages(states).len(),
        forall|k: int|
            0 <= k < at.len() ==> 0 <= #[trigger] at[k] < states.len() && (states[at[k]] matches
                watch::OpState::Done(m) && m@ == watch::op_messages(states)[k]),
        forall|k: int, l: int| 0 <= k < l < at.len() ==> #[trigger] at[k] < #[trigger] at[l],
        forall|i: int| 0 <= i < states.len() && (#[trigger] states[i]) is Done ==> at.contains(i),
{
    let f = |s: watch::OpState|
        match s {
            watch::OpState::Done(m) => Some(m@),
            _ => None,
        };
    let at = laws_text::what_is_given_is_listed(states, f);
    assert(watch::op_messages(states) == split::filter_map(states, f));
    assert forall|i: int| 0 <= i < states.len() && (
    #[trigger] states[i]) is Done implies at.contains(i) by {
        assert(f(states[i]) is Some);
    }
    at
}

// ------------------------------------------------------------------ quick actions

/// Starting the selected row starts its service when it is one that does not run: its command is
/// spawned, and the rows are built anew. Nothing is spawned for any other row.
pub proof fn the_selected_service_is_started(
    a: app::AppView,
    row: app::RowView,
    spawned: Result<i32, String>,
    now: u64,
)
    requires
        a.selected_row() == Some(row),
        row.kind matches app::RowKindView::Service(i) ==> i < a.manager.services.len(),
    ensures
        match row.kind {
            app::RowKindView::Service(i) => {
                let s = a.manager.services[i as int];
                let b = quick::selected_started(a, spawned, now);
                &&& s.child is None ==> {
                    &&& quick::selected_launch(a) == Some(
                        manager::LaunchView { service: i, cmd: s.cfg.cmd, cwd: s.cfg.cwd },
                    )
                    &&& b.manager == a.manager.start(i as int, spawned, now)
                    &&& spawned matches Ok(pid) ==> b.manager.services[i as int].child == Some(pid)
                        && b.message == "started "@ + row.name
                    &&& spawned matches Err(e) ==> b.message == "start "@ + row.name + " failed: "@
                        + e@ && b.manager == a.manager
                    &&& b.rows == rows::shown_rows(b)
                    &&& b == (app::AppView {
                        manager: b.manager,
                        message: b.message,
                        events: b.events,
                        rows: b.rows,
                        table: b.table,
                        cpu_hist: b.cpu_hist,
                        ..a
                    })
                }
                &&& s.child is Some ==> quick::selected_launch(a) is None && b.manager == a.manager
                    && b.message == "already running (k stops it)"@
            },
            _ => {
                let b = quick::selected_started(a, spawned, now);
                &&& quick::selected_launch(a) is None
                &&& b.manager == a.manager
                &&& b.message == "s starts managed services only (see dev-panel.toml)"@
            },
        },
{
    if let app::RowKindView::Service(i) = row.kind {
        let s = a.manager.services[i as int];
        let b = quick::selected_started(a, spawned, now);
        if s.child is None {
            let c = app::AppView { rows: a.rows, table: a.table, cpu_hist: a.cpu_hist, ..b };
            assert(rows::all_rows(b) =~= rows::all_rows(c)) by {
                laws_rows::rows_depend_on_what_they_show(b, c);
            }
            assert(b == rows::built(c));
        }
    }
}

/// How many services among the first of an order did not run.
pub open spec fn idle(m: manager::ManagerView, order: Seq<usize>, n: nat) -> nat
    decreases n,
{
    if n == 0 {
        0
    } else {
        idle(m, order, (n - 1) as nat) + (if m.services[order[n - 1] as int].child is None {
            1nat
        } else {
            0nat
        })
    }
}

/// Starting a stack whose commands can all be spawned gives every service of it that did not run
/// the process that was spawned for it and leaves the others as they were; it counts the
/// services that it started.
pub proof fn every_service_of_the_stack_is_started(
    m: manager::ManagerView,
    order: Seq<usize>,
    replies: Seq<Result<i32, String>>,
    now: u64,
    n: nat,
)
    requires
        order.no_duplicates(),
        n <= order.len(),
        forall|k: int| 0 <= k < order.len() ==> (#[trigger] order[k]) < m.services.len(),
        forall|k: int|
            0 <= k < n && m.services[#[trigger] order[k] as int].child is None ==> replies[k] is Ok,
    ensures
        ({
            let run = quick::start_run(m, order, replies, now, n);
            &&& run.failure is None
            &&& run.started == idle(m, order, n)
            &&& run.manager.services.len() == m.services.len()
            &&& run.manager.stack == m.stack
            &&& forall|k: int|
                0 <= k < n ==> run.manager.services[#[trigger] order[k] as int] == m.start(
                    order[k] as int,
                    replies[k],
                    now,
                ).services[order[k] as int]
            &&& forall|i: int|
                0 <= i < m.services.len() && (forall|k: int|
                    0 <= k < n ==> #[trigger] order[k] != i) ==> #[trigger] run.manager.services[i]
                    == m.services[i]
        }),
    decreases n,
{
    if n > 0 {
        every_service_of_the_stack_is_started(m, order, replies, now, (n - 1) as nat);
        let before = quick::start_run(m, order, replies, now, (n - 1) as nat);
        let run = quick::start_run(m, order, replies, now, n);
        let last = order[n - 1];
        assert(before.manager.services[last as int] == m.services[last as int]) by {
            assert forall|k: int| 0 <= k < n - 1 implies #[trigger] order[k] != last by {
                assert(order[k] != order[n - 1]);
            }
        }
        assert forall|k: int| 0 <= k < n implies run.manager.services[
            #[trigger] order[k] as int
        ] == m.start(order[k] as int, replies[k], now).services[order[k] as int] by {
            if k < n - 1 {
                assert(order[k] != order[n - 1]);
            }
        }
        assert forall|i: int|
            0 <= i < m.services.len() && (forall|k: int|
                0 <= k < n ==> #[trigger] order[k] != i) implies #[trigger] run.manager.services[i]
            == m.services[i] by {
            assert(order[n - 1] != i);
        }
    }
}

/// A stack is started up to the first service that cannot be: that one is told with its reason,
/// those before it are started and those behind it are left alone.
pub proof fn stacks_stop_at_the_first_failure(
    m: manager::ManagerView,
    order: Seq<usize>,
    replies: Seq<Result<i32, String>>,
    now: u64,
    k: nat,
    n: nat,
)
    requires
        order.no_duplicates(),
        k < n <= order.len(),
        forall|j: int| 0 <= j < order.len() ==> (#[trigger] order[j]) < m.services.len(),
        forall|j: int|
            0 <= j < k && m.services[#[trigger] order[j] as int].child is None ==> replies[j] is Ok,
        m.services[order[k as int] as int].child is None,
        replies[k as int] is Err,
    ensures
        quick::start_run(m, order, replies, now, n).failure == Some(
            "start "@ + m.services[order[k as int] as int].cfg.name + " failed: "@
                + replies[k as int]->Err_0@,
        ),
        quick::start_run(m, order, replies, now, n).manager == quick::start_run(
            m,
            order,
            replies,
            now,
            k,
        ).manager,
    decreases n,
{
    if n > k + 1 {
        stacks_stop_at_the_first_failure(m, order, replies, now, k, (n - 1) as nat);
    } else {
        every_service_of_the_stack_is_started(m, order, replies, now, k);
        let before = quick::start_run(m, order, replies, now, k);
        let last = order[k as int];
        assert(before.manager.services[last as int] == m.services[last as int]) by {
            assert forall|j: int| 0 <= j < k implies #[trigger] order[j] != last by {
                assert(order[j] != order[k as int]);
            }
        }
    }
}

/// What starting the stack says: how many services it started, or which could not be.
pub proof fn starting_the_stack_is_told(
    a: app::AppView,
    replies: Seq<Result<i32, String>>,
    now: u64,
)
    ensures
        ({
            let order = a.manager.stack_order();
            let run = quick::start_run(a.manager, order, replies, now, order.len());
            let b = quick::stack_started(a, replies, now);
            &&& a.manager.services.len() == 0 ==> b.message == "no services configured ("@
                + "dev-panel.toml"@ + ")"@ && b.manager == a.manager
            &&& a.manager.services.len() > 0 ==> b.manager == run.manager
            &&& a.manager.services.len() > 0 && run.failure is None ==> b.message == "started "@
                + text::decimal(run.started) + " service(s)"@
            &&& a.manager.services.len() > 0 && run.failure is Some ==> Some(b.message)
                == run.failure
            &&& b == (app::AppView {
                manager: b.manager,
                message: b.message,
                events: b.events,
                rows: b.rows,
                table: b.table,
                cpu_hist: b.cpu_hist,
                ..a
            })
        }),
{
}

/// The page of a row is at its port on this machine, and a row without a port has none.
pub proof fn pages_are_at_the_port(a: app::AppView, row: app::RowView, opened: Result<(), String>)
    requires
        a.selected_row() == Some(row),
    ensures
        row.port matches Some(p) ==> quick::url_of(a) == Some(
            "http://localhost:"@ + text::decimal(p as nat),
        ) && ({
            let b = quick::browser_opened(a, opened);
            &&& opened is Ok ==> b.message == "opened "@ + ("http://localhost:"@ + text::decimal(
                p as nat,
            ))
            &&& opened is Err ==> b.message == "open failed: "@ + opened->Err_0@
        }),
        row.port is None ==> quick::url_of(a) is None && quick::browser_opened(a, opened).message
            == "no port on this row"@,
{
}

/// What is copied reads back as the port, or as the process id where that is wanted or there is
/// no port; a row with neither gives nothing.
pub proof fn ports_and_ids_are_copied(a: app::AppView, row: app::RowView, done: Result<(), String>)
    requires
        a.selected_row() == Some(row),
    ensures
        row.port matches Some(p) ==> quick::copy_text_of(row, false) is Some
            && text::parse_unsigned(quick::copy_text_of(row, false)->0, 10, 0xffff) == Some(
            p as nat,
        ),
        row.port is None ==> quick::copy_text_of(row, false) == quick::copy_text_of(row, true),
        row.pid matches Some(pid) ==> quick::copy_text_of(row, true) is Some
            && text::parse_i32_spec(quick::copy_text_of(row, true)->0) == Some(pid as int),
        row.pid is None ==> quick::copy_text_of(row, true) is None,
        forall|pid_first: bool|
            ({
                let t = #[trigger] quick::copy_text_of(row, pid_first);
                let b = quick::copied(a, pid_first, done);
                &&& t is None ==> b.message == "nothing to copy on this row"@
                &&& t is Some && done is Ok ==> b.message == "copied "@ + t->0
                &&& t is Some && done is Err ==> b.message == "clipboard failed: "@ + done->Err_0@
            }),
{
    if let Some(p) = row.port {
        laws_text::decimals_read_back(p as nat, 0xffff);
    }
    if let Some(pid) = row.pid {
        laws_text::signed_decimals_read_back(pid);
    }
}

/// The folder of a row is where its service is configured to run, the current one when that is
/// not configured, or where its process runs; a container has none.
pub proof fn folders_are_where_things_run(
    a: app::AppView,
    row: app::RowView,
    opened: Result<(), String>,
)
    requires
        a.selected_row() == Some(row),
    ensures
        row.kind matches app::RowKindView::Service(i) ==> ({
            let cwd = a.manager.services[i as int].cfg.cwd;
            &&& cwd is Some ==> quick::folder_of(a, row) == cwd
            &&& cwd is None ==> quick::folder_of(a, row) == Some("."@)
        }),
        row.kind is Process && row.pid is Some && system::process_of(a.system, row.pid->0) is Some
            ==> quick::folder_of(a, row) == system::process_of(a.system, row.pid->0)->0.cwd,
        row.kind is Process && (row.pid is None || system::process_of(a.system, row.pid->0) is None)
            ==> quick::folder_of(a, row) is None,
        row.kind is Container ==> quick::folder_of(a, row) is None,
        ({
            let dir = quick::folder_of(a, row);
            let b = quick::editor_opened(a, opened);
            &&& dir is None ==> b.message == "no folder known for this row"@
            &&& dir is Some && opened is Ok ==> b.message == "opened "@ + dir->0
            &&& dir is Some && opened is Err ==> b.message == "editor failed: "@ + opened->Err_0@
        }),
{
}

/// How a container operation went is told with its name.
pub proof fn container_work_is_told(name: Seq<char>, e: String)
    ensures
        confirm::docker_stop_text(name, Ok::<(), String>(())) == "stopped container "@ + name,
        confirm::docker_stop_text(name, Err::<(), String>(e)) == "docker stop "@ + name
            + " failed: "@ + e@,
        confirm::docker_restart_text(name, Ok::<(), String>(())) == "restarted container "@ + name,
        confirm::docker_restart_text(name, Err::<(), String>(e)) == "docker restart "@ + name
            + " failed: "@ + e@,
{
}

/// The stack is started step by step: nothing is left once there are as many replies as services;
/// after a failure, and for a service that runs, nothing is done; otherwise the command of the
/// next service is run.
pub proof fn the_next_of_the_stack_is_started(
    m: manager::ManagerView,
    replies: Seq<Result<i32, String>>,
)
    requires
        m.services.len() <= usize::MAX,
        forall|j: int|
            0 <= j < m.stack_order().len() ==> (#[trigger] m.stack_order()[j]) < m.services.len(),
    ensures
        ({
            let k = replies.len() as int;
            let order = m.stack_order();
            let step = quick::next_start_of(m, replies);
            let failed = exists|j: int|
                0 <= j < k && m.services[#[trigger] order[j] as int].child is None && replies[j]
                    is Err;
            &&& k >= order.len() <==> step == quick::StackStepView::Done
            &&& k < order.len() && failed ==> step == quick::StackStepView::Skip
            &&& k < order.len() && m.services[order[k] as int].child is Some ==> step
                == quick::StackStepView::Skip
            &&& k < order.len() && !failed && m.services[order[k] as int].child is None ==> step
                == quick::StackStepView::Spawn(
                manager::LaunchView {
                    service: order[k],
                    cmd: m.services[order[k] as int].cfg.cmd,
                    cwd: m.services[order[k] as int].cfg.cwd,
                },
            )
        }),
{
    let k = replies.len() as int;
    let order = m.stack_order();
    if exists|j: int| 0 <= j < k && #[trigger] quick::failed_at(m, replies, j) {
        let j = choose|j: int| 0 <= j < k && #[trigger] quick::failed_at(m, replies, j);
        assert(m.services[order[j] as int].child is None);
    }
    if exists|j: int|
        0 <= j < k && m.services[#[trigger] order[j] as int].child is None && replies[j] is Err {
        let j = choose|j: int|
            0 <= j < k && m.services[#[trigger] order[j] as int].child is None && replies[j] is Err;
        assert(quick::failed_at(m, replies, j));
    }
}

/// Opening a page, copying and opening a folder change nothing but what is said.
pub proof fn quick_actions_change_nothing_else(
    a: app::AppView,
    done: Result<(), String>,
    pid_first: bool,
)
    ensures
        ({
            let b = quick::browser_opened(a, done);
            b == (app::AppView { message: b.message, events: b.events, ..a })
        }),
        ({
            let b = quick::copied(a, pid_first, done);
            b == (app::AppView { message: b.message, events: b.events, ..a })
        }),
        ({
            let b = quick::editor_opened(a, done);
            b == (app::AppView { message: b.message, events: b.events, ..a })
        }),
{
}

} // verus!
