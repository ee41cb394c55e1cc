//! What the table shows of the services, the processes and the containers.
use vstd::prelude::*;
use crate::app;
use crate::docker;
use crate::laws_reading;
use crate::laws_text;
use crate::manager;
use crate::platform;
use crate::ports;
use crate::rows;
use crate::services;
use crate::split;
use crate::system;
use crate::table;
use crate::text;

verus! {

// ------------------------------------------------------------------ rows

/// The row of a service shows the service: its name, its port and its command as they are
/// configured and the process that runs, if one does. A service that does not run and whose port
/// another process holds is in conflict.
pub proof fn services_are_shown(a: app::AppView, i: int)
    requires
        0 <= i < a.manager.services.len() <= usize::MAX,
        a.filter.len() == 0,
    ensures
        ({
            let s = a.manager.services[i];
            let r = rows::built(a).rows[i];
            let taken = exists|k: int|
                0 <= k < a.external.len() && Some((#[trigger] a.external[k]).port) == s.cfg.port;
            &&& rows::built(a).rows.len() >= a.manager.services.len()
            &&& r.pid == s.child
            &&& r.port == s.cfg.port
            &&& r.name == s.cfg.name
            &&& r.cmd == s.cfg.cmd
            &&& r.user == "-"@
            &&& r.kind == app::RowKindView::Service(i as usize)
            &&& r.strategy == app::StrategyView::Managed
            &&& s.child is None && taken ==> r.status == "conflict"@
            &&& s.child is Some || !taken ==> r.status == services::status_text_of(s)
        }),
{
    let s = a.manager.services[i];
    if s.cfg.port is Some {
        if rows::port_taken(a.external, s.cfg.port->0) {
            let k = choose|k: int|
                0 <= k < a.external.len() && (#[trigger] a.external[k]).port == s.cfg.port->0;
            assert(Some(a.external[k].port) == s.cfg.port);
        }
        if exists|k: int|
            0 <= k < a.external.len() && Some((#[trigger] a.external[k]).port) == s.cfg.port {
            let k = choose|k: int|
                0 <= k < a.external.len() && Some((#[trigger] a.external[k]).port) == s.cfg.port;
            assert(a.external[k].port == s.cfg.port->0);
        }
    }
}

/// Every listener that no service is behind has a row with its port, its process, its name, its
/// user and its command, after the services; the result says where.
pub proof fn listeners_are_shown(a: app::AppView, k: int) -> (j: int)
    requires
        0 <= k < a.external.len(),
        a.filter.len() == 0,
        forall|i: int|
            0 <= i < a.manager.services.len() ==> (#[trigger] a.manager.services[i]).child != Some(
                a.external[k].pid,
            ) && (a.manager.services[i].child is None || a.manager.services[i].cfg.port != Some(
                a.external[k].port,
            )),
    ensures
        a.manager.services.len() <= j < rows::built(a).rows.len() - a.containers.len(),
        ({
            let e = a.external[k];
            let r = rows::built(a).rows[j];
            &&& r.kind == app::RowKindView::Process
            &&& r.port == Some(e.port)
            &&& r.pid == Some(e.pid)
            &&& r.name == e.name
            &&& r.user == e.user
            &&& r.cmd == e.cmd
            &&& r.status == "listen"@
            &&& r.strategy == rows::process_strategy(
                a.manager,
                a.os,
                e.pid,
                Some(e.port),
                rows::known_command(a.system, e.pid, system::lookup_of(a.lookups, e.pid)),
                system::lookup_of(a.lookups, e.pid),
            )
        }),
{
    let f = |e: ports::PortEntryView| rows::process_row(a, e);
    let at = laws_text::what_is_given_is_listed(a.external, f);
    let e = a.external[k];
    assert(!rows::is_managed(a.manager, e)) by {
        if rows::is_managed(a.manager, e) {
            let i = choose|i: int|
                0 <= i < a.manager.services.len() && ((#[trigger] a.manager.services[i]).child
                    == Some(e.pid) || (a.manager.services[i].child is Some
                    && a.manager.services[i].cfg.port == Some(e.port)));
            assert(false);
        }
    }
    assert(f(a.external[k]) is Some);
    let p = choose|p: int| 0 <= p < at.len() && at[p] == k;
    let listed = split::filter_map(a.external, f);
    assert(f(a.external[at[p]]) == Some(listed[p]));
    assert(rows::built(a).rows[a.manager.services.len() + p] == listed[p]);
    a.manager.services.len() + p
}

/// The rows between the services and the containers are listeners, in the order in which they
/// were found, and no service is behind any of them. The result says which listener a row is.
pub proof fn shown_listeners_listen(a: app::AppView) -> (at: Seq<int>)
    requires
        a.filter.len() == 0,
    ensures
        rows::built(a).rows.len() == a.manager.services.len() + at.len() + a.containers.len(),
        forall|p: int|
            0 <= p < at.len() ==> 0 <= #[trigger] at[p] < a.external.len() && ({
                let r = rows::built(a).rows[a.manager.services.len() + p];
                &&& r.kind == app::RowKindView::Process
                &&& r.pid == Some(a.external[at[p]].pid)
                &&& r.port == Some(a.external[at[p]].port)
                &&& !rows::is_managed(a.manager, a.external[at[p]])
            }),
        forall|p: int, q: int| 0 <= p < q < at.len() ==> #[trigger] at[p] < #[trigger] at[q],
{
    let f = |e: ports::PortEntryView| rows::process_row(a, e);
    let at = laws_text::what_is_given_is_listed(a.external, f);
    let listed = split::filter_map(a.external, f);
    assert forall|p: int| 0 <= p < at.len() implies 0 <= #[trigger] at[p] < a.external.len() && ({
        let r = rows::built(a).rows[a.manager.services.len() + p];
        &&& r.kind == app::RowKindView::Process
        &&& r.pid == Some(a.external[at[p]].pid)
        &&& r.port == Some(a.external[at[p]].port)
        &&& !rows::is_managed(a.manager, a.external[at[p]])
    }) by {
        assert(f(a.external[at[p]]) == Some(listed[p]));
        assert(rows::built(a).rows[a.manager.services.len() + p] == listed[p]);
    }
    at
}

/// A service is behind a listener when the listener is its process, or when it runs and the
/// listener holds its port.
pub proof fn services_are_behind_their_listeners(m: manager::ManagerView, e: ports::PortEntryView, i: int)
    requires
        0 <= i < m.services.len(),
    ensures
        m.services[i].child == Some(e.pid) ==> rows::is_managed(m, e),
        m.services[i].child is Some && m.services[i].cfg.port == Some(e.port) ==> rows::is_managed(
            m,
            e,
        ),
{
}

/// The containers are the last rows, in the order in which they were listed, each with its name,
/// its status, its image and its ports.
pub proof fn containers_are_shown(a: app::AppView, k: int)
    requires
        0 <= k < a.containers.len(),
        a.filter.len() == 0,
    ensures
        ({
            let c = a.containers[k];
            let shown = rows::built(a).rows;
            let r = shown[shown.len() - a.containers.len() + k];
            &&& shown.len() >= a.containers.len()
            &&& r.kind == (app::RowKindView::Container { id: c.id })
            &&& r.name == c.name
            &&& r.status == c.status
            &&& r.port == docker::host_port_of(c.ports)
            &&& r.pid is None
            &&& r.user == "docker"@
            &&& r.cmd == c.image + "  "@ + c.ports
            &&& r.strategy == app::StrategyView::Docker
        }),
{
}

/// With a filter a row is shown exactly when the filter, whatever its case, stands in its name,
/// in its command or in its port; the rows that are shown stay in their order. The result says
/// which of all rows each is.
pub proof fn filters_show_what_matches(a: app::AppView) -> (at: Seq<int>)
    requires
        a.filter.len() > 0,
    ensures
        at.len() == rows::built(a).rows.len(),
        forall|k: int|
            0 <= k < at.len() ==> 0 <= #[trigger] at[k] < rows::all_rows(a).len()
                && rows::built(a).rows[k] == rows::all_rows(a)[at[k]],
        forall|k: int, l: int| 0 <= k < l < at.len() ==> #[trigger] at[k] < #[trigger] at[l],
        forall|i: int|
            0 <= i < rows::all_rows(a).len() ==> ({
                let r = #[trigger] rows::all_rows(a)[i];
                let q = text::lowercase(a.filter);
                at.contains(i) <==> split::contains(text::lowercase(r.name), q) || split::contains(
                    text::lowercase(r.cmd),
                    q,
                ) || (r.port is Some && split::contains(text::decimal(r.port->0 as nat), q)) || (
                r.port is None && q.len() == 0)
            }),
{
    let f = |r: app::RowView| rows::filtered(r, a.filter);
    let all = rows::all_rows(a);
    let at = laws_text::what_is_given_is_listed(all, f);
    let listed = split::filter_map(all, f);
    assert forall|k: int| 0 <= k < at.len() implies 0 <= #[trigger] at[k] < all.len()
        && rows::built(a).rows[k] == all[at[k]] by {
        assert(f(all[at[k]]) == Some(listed[k]));
    }
    assert forall|i: int| 0 <= i < all.len() implies ({
        let r = #[trigger] rows::all_rows(a)[i];
        let q = text::lowercase(a.filter);
        at.contains(i) <==> split::contains(text::lowercase(r.name), q) || split::contains(
            text::lowercase(r.cmd),
            q,
        ) || (r.port is Some && split::contains(text::decimal(r.port->0 as nat), q)) || (
        r.port is None && q.len() == 0)
    }) by {
        let r = all[i];
        let q = text::lowercase(a.filter);
        let none = Seq::<char>::empty();
        if q.len() == 0 {
            assert(none.subrange(0, 0) =~= q);
            assert(split::stands_at(none, 0, q));
        }
        if split::contains(none, q) {
            let j = choose|j: int| split::stands_at(none, j, q);
            assert(q.len() == 0);
        }
        if at.contains(i) {
            let k = choose|k: int| 0 <= k < at.len() && at[k] == i;
            assert(f(all[at[k]]) == Some(listed[k]));
        }
        if f(all[i]) is Some {
            assert(at.contains(i));
        }
    }
    at
}

/// The rows depend on the services, the listeners, the containers and what is known of the
/// processes, and on nothing else.
pub proof fn rows_depend_on_what_they_show(a: app::AppView, b: app::AppView)
    requires
        a.manager == b.manager,
        a.external == b.external,
        a.containers == b.containers,
        a.lookups == b.lookups,
        a.system == b.system,
        a.os == b.os,
    ensures
        rows::all_rows(a) == rows::all_rows(b),
{
    let f = |e: ports::PortEntryView| rows::process_row(a, e);
    let g = |e: ports::PortEntryView| rows::process_row(b, e);
    assert forall|e: ports::PortEntryView| #[trigger] f(e) == g(e) by {}
    assert(f =~= g);
}

/// Building the rows changes the rows, the selection and the histories and nothing else.
pub proof fn building_rows_changes_nothing_else(a: app::AppView)
    ensures
        ({
            let b = rows::built(a);
            b == (app::AppView { rows: b.rows, table: b.table, cpu_hist: b.cpu_hist, ..a })
        }),
{
}

/// A selection past the last row moves to it, a missing one to the first row; any other stays,
/// and so does what is scrolled.
pub proof fn selections_are_moved_into_the_table(a: app::AppView)
    requires
        rows::built(a).rows.len() <= usize::MAX,
    ensures
        ({
            let n = rows::built(a).rows.len();
            let t = rows::built(a).table;
            &&& t.offset == a.table.offset
            &&& match a.table.selected {
                Some(i) => t.selected is Some && (if i < n {
                    t.selected->0 == i
                } else if n > 0 {
                    t.selected->0 == n - 1
                } else {
                    t.selected->0 == 0
                }),
                None => if n > 0 {
                    t.selected == Some(0usize)
                } else {
                    t.selected is None
                },
            }
        }),
{
}

// ------------------------------------------------------------------ processor use

/// A process that is shown has a history that ends with its use now, after what it had before:
/// the oldest sample makes room once there are sixty. A process that is not shown has none.
pub proof fn histories_grow_at_the_end(a: app::AppView, pid: i32)
    requires
        app::histories_wf(a.cpu_hist),
    ensures
        ({
            let shown = exists|i: int|
                0 <= i < rows::built(a).rows.len() && (#[trigger] rows::built(a).rows[i]).pid
                    == Some(pid);
            let before = if a.cpu_hist.contains_key(pid) {
                a.cpu_hist[pid]
            } else {
                Seq::empty()
            };
            let hist = rows::built(a).cpu_hist;
            &&& hist.contains_key(pid) <==> shown
            &&& shown ==> {
                let h = hist[pid];
                &&& 0 < h.len() <= 60
                &&& h.last() == (match system::process_of(a.system, pid) {
                    Some(p) => p.cpu,
                    None => 0,
                })
                &&& before.len() < 60 ==> h.drop_last() == before
                &&& before.len() == 60 ==> h.len() == 60 && h.drop_last() == before.skip(1)
            }
        }),
{
    let hist = rows::built(a).cpu_hist;
    let shown = rows::built(a).rows;
    if rows::row_has_pid(shown, pid) {
        let i = choose|i: int| 0 <= i < shown.len() && (#[trigger] shown[i]).pid == Some(pid);
        assert(rows::built(a).rows[i].pid == Some(pid));
        let before = if a.cpu_hist.contains_key(pid) {
            a.cpu_hist[pid]
        } else {
            Seq::empty()
        };
        if before.len() < 60 {
            assert(hist[pid].drop_last() =~= before);
        } else {
            assert(hist[pid].drop_last() =~= before.skip(1));
        }
    }
}

// ------------------------------------------------------------------ polling

/// A poll takes the processes over. A scan that succeeds gives the listeners, each with its own
/// port and process, and fills in the names and users that the scan left open and the command
/// from the process; one that fails is told and leaves the listeners as they were.
pub proof fn polls_take_the_listeners_over(
    a: app::AppView,
    processes: Seq<system::ProcessView>,
    lookups: Seq<system::LookupView>,
    found: Result<Vec<ports::PortEntry>, String>,
    listed: Result<Vec<docker::Container>, String>,
    k: int,
)
    ensures
        ({
            let b = rows::polled(a, processes, lookups, found, listed);
            &&& b.system == processes
            &&& b == (app::AppView {
                system: processes,
                lookups: b.lookups,
                external: b.external,
                containers: b.containers,
                docker_ok: b.docker_ok,
                message: b.message,
                events: b.events,
                ..a
            })
            &&& match found {
                Ok(v) => b.lookups == lookups && b.external.len() == v@.len(),
                Err(e) => b.lookups == a.lookups && b.external == a.external,
            }
            &&& match found {
                Err(e) => a.docker_ok && listed is Err || b.message == "port scan failed: "@ + e@,
                Ok(v) => a.docker_ok && listed is Err || b.message == a.message && b.events
                    == a.events,
            }
            &&& found is Ok && 0 <= k < found->Ok_0@.len() ==> {
                let was = found->Ok_0@[k]@;
                let e = b.external[k];
                &&& e.port == was.port
                &&& e.pid == was.pid
                &&& match system::process_of(processes, was.pid) {
                    None => e == was,
                    Some(p) => {
                        &&& e.name == (if was.name.len() > 0 {
                            was.name
                        } else {
                            p.name
                        })
                        &&& was.user.len() > 0 ==> e.user == was.user
                        &&& was.user.len() == 0 && p.user is Some ==> e.user == p.user->0
                        &&& was.user.len() == 0 && p.user is None ==> e.user.len() == 0
                        &&& e.cmd == split::join(
                            system::command_of(p, system::lookup_of(lookups, was.pid)),
                            " "@,
                        )
                    },
                }
            }
        }),
{
}

/// Containers are taken over while Docker answers. The first failure is told, leaves no
/// containers and ends the asking.
pub proof fn polls_take_the_containers_over(
    a: app::AppView,
    processes: Seq<system::ProcessView>,
    lookups: Seq<system::LookupView>,
    found: Result<Vec<ports::PortEntry>, String>,
    listed: Result<Vec<docker::Container>, String>,
    k: int,
)
    ensures
        ({
            let b = rows::polled(a, processes, lookups, found, listed);
            &&& !a.docker_ok ==> !b.docker_ok && b.containers == a.containers
            &&& a.docker_ok ==> match listed {
                Ok(c) => b.docker_ok && b.containers.len() == c@.len() && (0 <= k < c@.len()
                    ==> b.containers[k] == c@[k]@),
                Err(e) => !b.docker_ok && b.containers.len() == 0 && b.message
                    == "docker unavailable: "@ + e@,
            }
        }),
{
}

/// The warning about conflicts names every service in conflict with its port, in the order of the
/// rows, and comes at the first time whether there are any or not.
pub proof fn conflicts_are_named(a: app::AppView) -> (at: Seq<int>)
    requires
        !a.warned_conflicts,
    ensures
        rows::warned(a).warned_conflicts,
        forall|k: int|
            0 <= k < at.len() ==> 0 <= #[trigger] at[k] < a.rows.len() && a.rows[at[k]].status
                == "conflict"@,
        forall|k: int, l: int| 0 <= k < l < at.len() ==> #[trigger] at[k] < #[trigger] at[l],
        forall|i: int|
            0 <= i < a.rows.len() && (#[trigger] a.rows[i]).status == "conflict"@ ==> at.contains(i),
        at.len() == 0 ==> rows::warned(a).message == a.message && rows::warned(a).events
            == a.events,
        at.len() > 0 ==> rows::warned(a).message == "port conflict: "@ + split::join(
            Seq::new(
                at.len(),
                |k: int|
                    a.rows[at[k]].name + " (port "@ + text::decimal(
                        match a.rows[at[k]].port {
                            Some(p) => p as nat,
                            None => 0,
                        },
                    ) + ")"@,
            ),
            ", "@,
        ),
        rows::warned(a) == (app::AppView {
            warned_conflicts: true,
            message: rows::warned(a).message,
            events: rows::warned(a).events,
            ..a
        }),
{
    let f = |r: app::RowView| rows::conflict_of(r);
    let at = laws_text::what_is_given_is_listed(a.rows, f);
    let listed = split::filter_map(a.rows, f);
    let told = Seq::new(
        at.len(),
        |k: int|
            a.rows[at[k]].name + " (port "@ + text::decimal(
                match a.rows[at[k]].port {
                    Some(p) => p as nat,
                    None => 0,
                },
            ) + ")"@,
    );
    assert forall|k: int| 0 <= k < at.len() implies 0 <= #[trigger] at[k] < a.rows.len()
        && a.rows[at[k]].status == "conflict"@ && listed[k] == told[k] by {
        assert(f(a.rows[at[k]]) == Some(listed[k]));
    }
    assert(listed =~= told) by {
        assert forall|k: int| 0 <= k < at.len() implies listed[k] == told[k] by {
            assert(0 <= at[k]);
        }
    }
    assert forall|i: int|
        0 <= i < a.rows.len() && (#[trigger] a.rows[i]).status == "conflict"@ implies at.contains(
        i,
    ) by {
        assert(f(a.rows[i]) is Some);
    }
    at
}

// ------------------------------------------------------------------ strategies

/// The service of a port is the first that has it.
pub proof fn ports_belong_to_the_first_service(m: manager::ManagerView, port: u16, from: int)
    requires
        0 <= from,
    ensures
        match rows::service_on_port(m, port, from) {
            Some(i) => from <= i < m.services.len() && m.services[i].cfg.port == Some(port)
                && forall|j: int|
                from <= j < i ==> (#[trigger] m.services[j]).cfg.port != Some(port),
            None => forall|j: int|
                from <= j < m.services.len() ==> (#[trigger] m.services[j]).cfg.port != Some(port),
        },
    decreases m.services.len() - from,
{
    if from < m.services.len() && m.services[from].cfg.port != Some(port) {
        ports_belong_to_the_first_service(m, port, from + 1);
    }
}

/// How a process is restarted is decided in this order: by the service that has its port, by its
/// unit, by its agent, and then by its command line: through the shell when a package manager
/// runs it, else directly, and not at all when it is not known.
pub proof fn strategies_have_an_order(
    m: manager::ManagerView,
    os: platform::Os,
    pid: i32,
    port: Option<u16>,
    cmd: Seq<Seq<char>>,
    lookup: system::LookupView,
    i: int,
)
    requires
        m.services.len() <= usize::MAX,
    ensures
        ({
            let chosen = rows::process_strategy(m, os, pid, port, cmd, lookup);
            let free = port is None || forall|j: int|
                0 <= j < m.services.len() ==> (#[trigger] m.services[j]).cfg.port != port;
            let unit = platform::unit_of(os, lookup.cgroup);
            let label = platform::label_of(os, lookup.launchctl, pid);
            &&& port is Some && 0 <= i < m.services.len() && m.services[i].cfg.port == port && (
            forall|j: int| 0 <= j < i ==> (#[trigger] m.services[j]).cfg.port != port) ==> chosen
                == app::StrategyView::Configured(i as usize)
            &&& free && unit is Some ==> chosen == app::StrategyView::Systemd(unit->0)
            &&& free && unit is None && label is Some ==> chosen == app::StrategyView::Launchd(
                label->0,
            )
            &&& free && unit is None && label is None && cmd.len() == 0 ==> chosen
                == app::StrategyView::Unknown
            &&& free && unit is None && label is None && cmd.len() > 0 ==> (chosen
                == app::StrategyView::Shell || chosen == app::StrategyView::Naive) && (chosen
                == app::StrategyView::Shell <==> rows::is_wrapper(cmd[0]))
        }),
{
    if port is Some {
        ports_belong_to_the_first_service(m, port->0, 0);
        if let Some(f) = rows::service_on_port(m, port->0, 0) {
            assert(m.services[f].cfg.port == port);
            if 0 <= i < m.services.len() && m.services[i].cfg.port == port && (forall|j: int|
                0 <= j < i ==> (#[trigger] m.services[j]).cfg.port != port) {
                if f < i {
                    assert(m.services[f].cfg.port != port);
                }
                if i < f {
                    assert(m.services[i].cfg.port != Some(port->0));
                }
            }
        } else if 0 <= i < m.services.len() {
            assert(m.services[i].cfg.port != Some(port->0));
        }
    }
}

/// A package manager is known by its file name, wherever it is installed.
pub proof fn package_managers_are_known_by_name(dir: Seq<char>, name: Seq<char>)
    requires
        !name.contains('/'),
    ensures
        rows::is_wrapper(dir + seq!['/'] + name) == rows::is_wrapper(name),
        rows::is_wrapper(name) <==> name == "npm"@ || name == "npx"@ || name == "pnpm"@ || name
            == "yarn"@,
{
    laws_text::the_last_piece_is_the_rest(dir, name, '/');
}

/// The command line of a process that is gone is not known.
pub proof fn commands_of_the_gone_are_unknown(
    processes: Seq<system::ProcessView>,
    pid: i32,
    lookup: system::LookupView,
)
    ensures
        (forall|x: int| 0 <= x < processes.len() ==> (#[trigger] processes[x]).pid != pid)
            ==> rows::known_command(processes, pid, lookup).len() == 0,
        system::process_of(processes, pid) is Some ==> rows::known_command(processes, pid, lookup)
            == system::command_of(system::process_of(processes, pid)->0, lookup),
{
    laws_reading::processes_are_found_by_id(processes, pid, 0);
    if let Some(p) = system::process_of(processes, pid) {
        let x = choose|x: int|
            0 <= x < processes.len() && #[trigger] processes[x] == p && forall|y: int|
                0 <= y < x ==> (#[trigger] processes[y]).pid != pid;
        assert(processes[x].pid == pid);
    }
}

/// Up and down move the selection by one row and never past the first.
pub proof fn the_selection_moves_by_one(t: table::TableState, i: usize)
    ensures
        t.selected == Some(i) && i < usize::MAX ==> table::next_of(t).selected == Some(
            (i + 1) as usize,
        ),
        t.selected == Some(i) && i > 0 ==> table::previous_of(t).selected == Some((i - 1) as usize),
        t.selected == Some(0usize) ==> table::previous_of(t).selected == Some(0usize),
        t.selected is None ==> table::next_of(t).selected == Some(0usize) && table::previous_of(
            t,
        ).selected == Some(usize::MAX),
        table::next_of(t).offset == t.offset && table::previous_of(t).offset == t.offset,
        t.selected == Some(i) && i < usize::MAX ==> table::previous_of(table::next_of(t)) == t,
{
}

} // verus!
