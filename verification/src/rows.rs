//! The rows of the table: managed services, other listening processes and containers.
use std::collections::{HashMap, VecDeque};
use vstd::prelude::*;
use crate::app;
use crate::app::{App, Row, RowKind, Strategy, CPU_HISTORY};
use crate::docker;
use crate::docker::Container;
use crate::manager;
use crate::platform;
use crate::platform::{launchd_label, systemd_unit};
use crate::ports;
use crate::ports::PortEntry;
use crate::services;
use crate::split;
use crate::split::{has, join_strings, split_at};
use crate::system;
use crate::system::{command_line, lookup, no_lookup, process, Lookup, Process};
use crate::table;
use crate::text;
use crate::text::{
    chars_are, chars_of, decimal_string, push_decimal, push_text,
};

verus! {

broadcast use vstd::std_specs::hash::group_hash_axioms;

// ------------------------------------------------------------------ meaning

/// An entry with what the process table adds to it: its name and user where they are empty,
/// and its command line.
pub open spec fn enriched(
    e: ports::PortEntryView,
    processes: Seq<system::ProcessView>,
    lookups: Seq<system::LookupView>,
) -> ports::PortEntryView {
    match system::process_of(processes, e.pid) {
        None => e,
        Some(p) => ports::PortEntryView {
            name: if e.name.len() == 0 {
                p.name
            } else {
                e.name
            },
            user: if e.user.len() == 0 {
                match p.user {
                    Some(u) => u,
                    None => Seq::empty(),
                }
            } else {
                e.user
            },
            cmd: split::join(system::command_of(p, system::lookup_of(lookups, e.pid)), " "@),
            ..e
        },
    }
}

/// The first service, from `from` on, that is configured for a port.
pub open spec fn service_on_port(m: manager::ManagerView, port: u16, from: int) -> Option<int>
    decreases m.services.len() - from,
{
    if from < 0 || from >= m.services.len() {
        None
    } else if m.services[from].cfg.port == Some(port) {
        Some(from)
    } else {
        service_on_port(m, port, from + 1)
    }
}

/// Whether a program is a package manager that wraps what it runs.
pub open spec fn is_wrapper(program: Seq<char>) -> bool {
    let base = split::after_last(program, '/');
    base == "npm"@ || base == "npx"@ || base == "pnpm"@ || base == "yarn"@
}

/// How a process that is not a managed service is restarted: by the configured service for
/// its port, by its supervisor, through the shell when a package manager runs it, or else
/// directly.
pub open spec fn process_strategy(
    m: manager::ManagerView,
    os: platform::Os,
    pid: i32,
    port: Option<u16>,
    cmd: Seq<Seq<char>>,
    lookup: system::LookupView,
) -> app::StrategyView {
    if port is Some && service_on_port(m, port->0, 0) is Some {
        app::StrategyView::Configured(service_on_port(m, port->0, 0)->0 as usize)
    } else {
        match platform::unit_of(os, lookup.cgroup) {
            Some(unit) => app::StrategyView::Systemd(unit),
            None => match platform::label_of(os, lookup.launchctl, pid) {
                Some(label) => app::StrategyView::Launchd(label),
                None => if cmd.len() == 0 {
                    app::StrategyView::Unknown
                } else if is_wrapper(cmd[0]) {
                    app::StrategyView::Shell
                } else {
                    app::StrategyView::Naive
                },
            },
        }
    }
}

/// The command line of a process that may be gone.
pub open spec fn known_command(
    processes: Seq<system::ProcessView>,
    pid: i32,
    lookup: system::LookupView,
) -> Seq<Seq<char>> {
    match system::process_of(processes, pid) {
        Some(p) => system::command_of(p, lookup),
        None => Seq::empty(),
    }
}

/// Whether some entry is about a port.
pub open spec fn port_taken(external: Seq<ports::PortEntryView>, port: u16) -> bool {
    exists|i: int| 0 <= i < external.len() && (#[trigger] external[i]).port == port
}

/// The row of a service. A service that does not run while something else holds its port is
/// in conflict.
pub open spec fn service_row(
    m: manager::ManagerView,
    external: Seq<ports::PortEntryView>,
    i: int,
) -> app::RowView {
    let s = m.services[i];
    app::RowView {
        kind: app::RowKindView::Service(i as usize),
        port: s.cfg.port,
        pid: s.child,
        name: s.cfg.name,
        status: if s.child is None && s.cfg.port is Some && port_taken(external, s.cfg.port->0) {
            "conflict"@
        } else {
            services::status_text_of(s)
        },
        user: "-"@,
        cmd: s.cfg.cmd,
        strategy: app::StrategyView::Managed,
    }
}

/// Whether an entry is about a managed service: its process is the service's child, or its
/// port is that of a service that runs (the child is the shell, the listener a child of that).
pub open spec fn is_managed(m: manager::ManagerView, e: ports::PortEntryView) -> bool {
    exists|i: int|
        0 <= i < m.services.len() && ((#[trigger] m.services[i]).child == Some(e.pid) || (
        m.services[i].child is Some && m.services[i].cfg.port == Some(e.port)))
}

/// The row of a listening process that is not managed.
pub open spec fn process_row(a: app::AppView, e: ports::PortEntryView) -> Option<app::RowView> {
    if is_managed(a.manager, e) {
        None
    } else {
        let lookup = system::lookup_of(a.lookups, e.pid);
        Some(
            app::RowView {
                kind: app::RowKindView::Process,
                port: Some(e.port),
                pid: Some(e.pid),
                name: e.name,
                status: "listen"@,
                user: e.user,
                cmd: e.cmd,
                strategy: process_strategy(
                    a.manager,
                    a.os,
                    e.pid,
                    Some(e.port),
                    known_command(a.system, e.pid, lookup),
                    lookup,
                ),
            },
        )
    }
}

/// The row of a container.
pub open spec fn container_row(c: docker::ContainerView) -> app::RowView {
    app::RowView {
        kind: app::RowKindView::Container { id: c.id },
        port: docker::host_port_of(c.ports),
        pid: None,
        name: c.name,
        status: c.status,
        user: "docker"@,
        cmd: c.image + "  "@ + c.ports,
        strategy: app::StrategyView::Docker,
    }
}

/// All rows: the services, then the processes that are not managed, then the containers.
pub open spec fn all_rows(a: app::AppView) -> Seq<app::RowView> {
    Seq::new(
        a.manager.services.len(),
        |i: int| service_row(a.manager, a.external, i),
    ) + split::filter_map(a.external, |e: ports::PortEntryView| process_row(a, e)) + Seq::new(
        a.containers.len(),
        |i: int| container_row(a.containers[i]),
    )
}

/// The text of a port, empty when there is none.
pub open spec fn port_text(port: Option<u16>) -> Seq<char> {
    match port {
        Some(p) => text::decimal(p as nat),
        None => Seq::empty(),
    }
}

/// Whether a query stands in a row's name, command or port, the first two given in lowercase.
pub open spec fn found_in(
    name: Seq<char>,
    cmd: Seq<char>,
    port: Option<u16>,
    query: Seq<char>,
) -> bool {
    split::contains(name, query) || split::contains(cmd, query) || split::contains(
        port_text(port),
        query,
    )
}

/// The row, when it matches a filter; case does not matter.
pub open spec fn filtered(r: app::RowView, filter: Seq<char>) -> Option<app::RowView> {
    if found_in(
        text::lowercase(r.name),
        text::lowercase(r.cmd),
        r.port,
        text::lowercase(filter),
    ) {
        Some(r)
    } else {
        None
    }
}

/// The rows that are shown: all of them, or those that match the filter when there is one.
pub open spec fn shown_rows(a: app::AppView) -> Seq<app::RowView> {
    if a.filter.len() == 0 {
        all_rows(a)
    } else {
        split::filter_map(all_rows(a), |r: app::RowView| filtered(r, a.filter))
    }
}

/// The table with a selection that names one of `n` rows, where there are any.
pub open spec fn clamped(t: table::TableState, n: nat) -> table::TableState {
    let last: int = if n == 0 {
        0
    } else {
        n - 1
    };
    match t.selected {
        Some(i) => if i > last {
            table::TableState { selected: Some(last as usize), ..t }
        } else {
            t
        },
        None => if n > 0 {
            table::TableState { selected: Some(0), ..t }
        } else {
            t
        },
    }
}

/// Whether some row is about a process.
pub open spec fn row_has_pid(rows: Seq<app::RowView>, pid: i32) -> bool {
    exists|i: int| 0 <= i < rows.len() && (#[trigger] rows[i]).pid == Some(pid)
}

/// The history of a process with one more sample; the oldest makes room when it is full.
pub open spec fn sampled(hist: Map<i32, Seq<u64>>, pid: i32, cpu: u64) -> Seq<u64> {
    let h = if hist.contains_key(pid) {
        hist[pid]
    } else {
        Seq::empty()
    };
    if h.len() >= CPU_HISTORY {
        h.skip(1).push(cpu)
    } else {
        h.push(cpu)
    }
}

/// The processor use of a process, zero when it is gone.
pub open spec fn cpu_of(processes: Seq<system::ProcessView>, pid: i32) -> u64 {
    match system::process_of(processes, pid) {
        Some(p) => p.cpu,
        None => 0,
    }
}

/// The histories of the processes that have a row, each with one more sample; others are
/// dropped.
pub open spec fn next_histories(
    hist: Map<i32, Seq<u64>>,
    processes: Seq<system::ProcessView>,
    rows: Seq<app::RowView>,
) -> Map<i32, Seq<u64>> {
    Map::new(
        |pid: i32| row_has_pid(rows, pid),
        |pid: i32| sampled(hist, pid, cpu_of(processes, pid)),
    )
}

/// The panel with its rows built anew.
pub open spec fn built(a: app::AppView) -> app::AppView {
    app::AppView {
        rows: shown_rows(a),
        table: clamped(a.table, shown_rows(a).len()),
        cpu_hist: next_histories(a.cpu_hist, a.system, shown_rows(a)),
        ..a
    }
}

/// The panel after a look at the system: what was found of the processes, the ports and the
/// containers. When the ports could not be scanned, what was known of them stays, with what was
/// looked up about their processes. Docker is no longer asked once it has failed.
pub open spec fn polled(
    a: app::AppView,
    processes: Seq<system::ProcessView>,
    lookups: Seq<system::LookupView>,
    found: Result<Vec<PortEntry>, String>,
    listed: Result<Vec<Container>, String>,
) -> app::AppView {
    let seen = app::AppView { system: processes, ..a };
    let scanned = match found {
        Ok(v) => app::AppView {
            lookups,
            external: Seq::new(
                v@.len(),
                |i: int| enriched(v@[i]@, processes, lookups),
            ),
            ..seen
        },
        Err(e) => seen.say("port scan failed: "@ + e@),
    };
    if a.docker_ok {
        match listed {
            Ok(c) => app::AppView { containers: docker::containers(c@), ..scanned },
            Err(e) => app::AppView {
                docker_ok: false,
                containers: Seq::empty(),
                ..scanned
            }.say("docker unavailable: "@ + e@),
        }
    } else {
        scanned
    }
}

/// What the warning says of a row in conflict.
pub open spec fn conflict_of(r: app::RowView) -> Option<Seq<char>> {
    if r.status == "conflict"@ {
        Some(
            r.name + " (port "@ + text::decimal(
                match r.port {
                    Some(p) => p as nat,
                    None => 0,
                },
            ) + ")"@,
        )
    } else {
        None
    }
}

/// The panel after the warning about port conflicts, which comes once.
pub open spec fn warned(a: app::AppView) -> app::AppView {
    if a.warned_conflicts {
        a
    } else {
        let conflicts = split::filter_map(a.rows, |r: app::RowView| conflict_of(r));
        let b = app::AppView { warned_conflicts: true, ..a };
        if conflicts.len() == 0 {
            b
        } else {
            b.say("port conflict: "@ + split::join(conflicts, ", "@))
        }
    }
}

// ------------------------------------------------------------------ execution

fn enrich(e: &PortEntry, processes: &Vec<Process>, lookups: &Vec<Lookup>) -> (r: PortEntry)
    ensures
        r@ == enriched(e@, system::processes(processes@), system::lookup_views(lookups@)),
{
    let p = match process(processes, e.pid) {
        Some(p) => p,
        None => {
            return e.copy();
        },
    };
    let name = if e.name.as_str().is_empty() {
        p.name.clone()
    } else {
        e.name.clone()
    };
    let user = if e.user.as_str().is_empty() {
        match &p.user {
            Some(u) => u.clone(),
            None => String::new(),
        }
    } else {
        e.user.clone()
    };
    let cmd = match lookup(lookups, e.pid) {
        Some(l) => command_line(p, l),
        None => {
            let l = no_lookup(e.pid);
            command_line(p, &l)
        },
    };
    PortEntry { port: e.port, pid: e.pid, name, user, cmd: join_strings(&cmd, " ") }
}

fn wrapper(program: &str) -> (r: bool)
    ensures
        r == is_wrapper(program@),
{
    let chars = chars_of(program);
    let mut parts = split_at(chars.as_slice(), '/');
    let ghost all = text::views(parts@);
    match parts.pop() {
        Some(base) => {
            assert(base@ == all.last());
            chars_are(&base, "npm") || chars_are(&base, "npx") || chars_are(&base, "pnpm")
                || chars_are(&base, "yarn")
        },
        None => false,
    }
}

/// Whether a query stands in a row's name, command or port; see [`found_in`].
pub fn row_matches(name: &str, cmd: &str, port: Option<u16>, query: &str) -> (r: bool)
    ensures
        r == found_in(name@, cmd@, port, query@),
{
    let p = match port {
        Some(p) => decimal_string(p as u64),
        None => String::new(),
    };
    assert(p@ =~= port_text(port));
    has(name, query) || has(cmd, query) || has(p.as_str(), query)
}

fn sample(hist: &HashMap<i32, VecDeque<u64>>, pid: i32, cpu: u64) -> (r: VecDeque<u64>)
    ensures
        r@ == sampled(app::histories(hist@), pid, cpu),
{
    let mut out: VecDeque<u64> = VecDeque::new();
    let ghost hv = app::histories(hist@);
    match hist.get(&pid) {
        Some(h) => {
            assert(hv.contains_key(pid) && hv[pid] == h@);
            let from: usize = if h.len() >= CPU_HISTORY {
                1
            } else {
                0
            };
            let n = h.len();
            for i in from..n
                invariant
                    n == h@.len(),
                    from <= n,
                    out@ == h@.subrange(from as int, i as int),
            {
                out.push_back(h[i]);
                assert(out@ =~= h@.subrange(from as int, i + 1));
            }
            proof {
                assert(from == 1 ==> out@ =~= h@.skip(1));
                assert(from == 0 ==> out@ =~= h@);
            }
        },
        None => {
            assert(!hv.contains_key(pid));
        },
    }
    out.push_back(cpu);
    out
}

impl App {
    /// How a process is restarted; see [`process_strategy`].
    pub fn strategy_for(
        &self,
        pid: i32,
        port: Option<u16>,
        cmd: &Vec<String>,
        lookup: &Lookup,
    ) -> (r: Strategy)
        ensures
            r@ == process_strategy(
                self@.manager,
                self@.os,
                pid,
                port,
                text::texts(cmd@),
                lookup@,
            ),
            r matches Strategy::Configured(i) ==> i < self@.manager.services.len(),
            r !is Managed && r !is Docker,
            (r is Shell || r is Naive) ==> cmd@.len() > 0,
    {
        if let Some(p) = port {
            let n = self.manager.services.len();
            for i in 0..n
                invariant
                    n == self.manager.services@.len(),
                    port == Some(p),
                    service_on_port(self@.manager, p, 0) == service_on_port(
                        self@.manager,
                        p,
                        i as int,
                    ),
            {
                let here = match self.manager.services[i].cfg.port {
                    Some(q) => q == p,
                    None => false,
                };
                if here {
                    return Strategy::Configured(i);
                }
            }
        }
        if let Some(unit) = systemd_unit(self.os, &lookup.cgroup) {
            return Strategy::Systemd(unit);
        }
        if let Some(label) = launchd_label(self.os, &lookup.launchctl, pid) {
            return Strategy::Launchd(label);
        }
        if cmd.len() == 0 {
            return Strategy::Unknown;
        }
        assert(text::texts(cmd@)[0] == cmd@[0]@);
        if wrapper(cmd[0].as_str()) {
            Strategy::Shell
        } else {
            Strategy::Naive
        }
    }

    /// Takes in a look at the system; see [`polled`].
    pub fn poll(
        &mut self,
        processes: Vec<Process>,
        lookups: Vec<Lookup>,
        found: Result<Vec<PortEntry>, String>,
        listed: Result<Vec<Container>, String>,
    )
        requires
            old(self).wf(),
        ensures
            final(self)@ == polled(
                old(self)@,
                system::processes(processes@),
                system::lookup_views(lookups@),
                found,
                listed,
            ),
            final(self).wf(),
    {
        let ghost pv = system::processes(processes@);
        let ghost lv = system::lookup_views(lookups@);
        self.system = processes;
        match found {
            Ok(v) => {
                self.lookups = lookups;
                let mut external: Vec<PortEntry> = Vec::new();
                for i in 0..v.len()
                    invariant
                        external@.len() == i,
                        pv == system::processes(self.system@),
                        lv == system::lookup_views(self.lookups@),
                        forall|j: int|
                            0 <= j < i ==> (#[trigger] external@[j])@ == enriched(v@[j]@, pv, lv),
                {
                    external.push(enrich(&v[i], &self.system, &self.lookups));
                }
                self.external = external;
                assert(self@.external =~= Seq::new(
                    v@.len(),
                    |i: int| enriched(v@[i]@, pv, lv),
                ));
            },
            Err(e) => {
                let mut m = "port scan failed: ".to_owned();
                push_text(&mut m, e.as_str());
                self.say(m);
            },
        }
        if self.docker_ok {
            match listed {
                Ok(c) => {
                    self.containers = c;
                },
                Err(e) => {
                    self.docker_ok = false;
                    self.containers = Vec::new();
                    assert(self@.containers =~= Seq::empty());
                    let mut m = "docker unavailable: ".to_owned();
                    push_text(&mut m, e.as_str());
                    self.say(m);
                },
            }
        }
    }

    fn port_is_taken(&self, port: u16) -> (r: bool)
        ensures
            r == port_taken(self@.external, port),
    {
        let n = self.external.len();
        for i in 0..n
            invariant
                n == self.external@.len(),
                forall|j: int| 0 <= j < i ==> (#[trigger] self@.external[j]).port != port,
        {
            assert(self@.external[i as int] == self.external@[i as int]@);
            if self.external[i].port == port {
                return true;
            }
        }
        false
    }

    fn make_service_row(&self, i: usize) -> (r: Row)
        requires
            i < self@.manager.services.len(),
        ensures
            r@ == service_row(self@.manager, self@.external, i as int),
    {
        let svc = &self.manager.services[i];
        let occupied = match svc.cfg.port {
            Some(p) => !svc.running() && self.port_is_taken(p),
            None => false,
        };
        let status = if occupied {
            "conflict".to_owned()
        } else {
            svc.status_text()
        };
        Row {
            kind: RowKind::Service(i),
            port: svc.cfg.port,
            pid: svc.pid(),
            name: svc.cfg.name.clone(),
            status,
            user: "-".to_owned(),
            cmd: svc.cfg.cmd.clone(),
            strategy: Strategy::Managed,
        }
    }

    fn managed(&self, e: &PortEntry) -> (r: bool)
        ensures
            r == is_managed(self@.manager, e@),
    {
        let n = self.manager.services.len();
        let ghost m = self@.manager;
        for i in 0..n
            invariant
                n == self.manager.services@.len(),
                m == self@.manager,
                forall|j: int|
                    0 <= j < i ==> !((#[trigger] m.services[j]).child == Some(e.pid) || (
                    m.services[j].child is Some && m.services[j].cfg.port == Some(e.port))),
        {
            assert(m.services[i as int] == self.manager.services@[i as int]@);
            let svc = &self.manager.services[i];
            if let Some(pid) = svc.pid() {
                let same_port = match svc.cfg.port {
                    Some(p) => p == e.port,
                    None => false,
                };
                if pid == e.pid || same_port {
                    return true;
                }
            }
        }
        false
    }

    fn make_process_row(&self, e: &PortEntry) -> (r: Option<Row>)
        ensures
            match r {
                Some(row) => process_row(self@, e@) == Some(row@),
                None => process_row(self@, e@) is None,
            },
    {
        if self.managed(e) {
            return None;
        }
        let blank = no_lookup(e.pid);
        let l = match lookup(&self.lookups, e.pid) {
            Some(l) => l,
            None => &blank,
        };
        let cmd = self.command_for(e.pid, l);
        let strategy = self.strategy_for(e.pid, Some(e.port), &cmd, l);
        Some(
            Row {
                kind: RowKind::Process,
                port: Some(e.port),
                pid: Some(e.pid),
                name: e.name.clone(),
                status: "listen".to_owned(),
                user: e.user.clone(),
                cmd: e.cmd.clone(),
                strategy,
            },
        )
    }

    /// The command line of a process that may be gone; see [`known_command`].
    pub fn command_for(&self, pid: i32, lookup: &Lookup) -> (r: Vec<String>)
        ensures
            text::texts(r@) == known_command(self@.system, pid, lookup@),
    {
        match process(&self.system, pid) {
            Some(p) => command_line(p, lookup),
            None => {
                let r: Vec<String> = Vec::new();
                assert(text::texts(r@) =~= Seq::<Seq<char>>::empty());
                r
            },
        }
    }

    fn make_all_rows(&self) -> (r: Vec<Row>)
        ensures
            app::row_views(r@) == all_rows(self@),
            forall|i: int|
                0 <= i < r@.len() ==> app::row_wf(
                    (#[trigger] r@[i])@,
                    self@.manager.services.len(),
                ),
    {
        let ghost a = self@;
        let ghost services_part = Seq::new(
            a.manager.services.len(),
            |i: int| service_row(a.manager, a.external, i),
        );
        let ghost f = |e: ports::PortEntryView| process_row(a, e);
        let mut rows: Vec<Row> = Vec::new();
        let n = self.manager.services.len();
        for i in 0..n
            invariant
                a == self@,
                n == a.manager.services.len(),
                rows@.len() == i,
                forall|j: int|
                    0 <= j < i ==> (#[trigger] rows@[j])@ == service_row(
                        a.manager,
                        a.external,
                        j,
                    ),
        {
            rows.push(self.make_service_row(i));
        }
        proof {
            assert(app::row_views(rows@) =~= services_part);
            assert(a.external.take(0) =~= Seq::<ports::PortEntryView>::empty());
            assert(services_part + split::filter_map(a.external.take(0), f) =~= services_part);
        }
        let ne = self.external.len();
        for i in 0..ne
            invariant
                a == self@,
                ne == self.external@.len(),
                f == (|e: ports::PortEntryView| process_row(a, e)),
                app::row_views(rows@) == services_part + split::filter_map(
                    a.external.take(i as int),
                    f,
                ),
                forall|j: int|
                    0 <= j < rows@.len() ==> app::row_wf(
                        (#[trigger] rows@[j])@,
                        a.manager.services.len(),
                    ),
        {
            let ghost before = app::row_views(rows@);
            proof {
                assert(a.external.take(i + 1).drop_last() =~= a.external.take(i as int));
                assert(a.external.take(i + 1).last() == self.external@[i as int]@);
            }
            if let Some(row) = self.make_process_row(&self.external[i]) {
                let ghost rv = row@;
                rows.push(row);
                proof {
                    assert(app::row_views(rows@) =~= before.push(rv));
                    assert(app::row_views(rows@) =~= services_part + split::filter_map(
                        a.external.take(i as int),
                        f,
                    ).push(rv));
                }
            }
        }
        let ghost process_part = split::filter_map(a.external, f);
        let ghost first_two = services_part + process_part;
        assert(a.external.take(ne as int) =~= a.external);
        let nc = self.containers.len();
        let ghost at = rows@.len();
        for i in 0..nc
            invariant
                a == self@,
                nc == self.containers@.len(),
                at == first_two.len(),
                rows@.len() == at + i,
                forall|j: int| 0 <= j < at ==> (#[trigger] rows@[j])@ == first_two[j],
                forall|j: int|
                    at <= j < at + i ==> (#[trigger] rows@[j])@ == container_row(
                        a.containers[j - at],
                    ),
                forall|j: int|
                    0 <= j < rows@.len() ==> app::row_wf(
                        (#[trigger] rows@[j])@,
                        a.manager.services.len(),
                    ),
        {
            let c = &self.containers[i];
            assert(a.containers[i as int] == c@);
            let mut cmd = c.image.clone();
            push_text(&mut cmd, "  ");
            push_text(&mut cmd, c.ports.as_str());
            rows.push(
                Row {
                    kind: RowKind::Container { id: c.id.clone() },
                    port: c.host_port(),
                    pid: None,
                    name: c.name.clone(),
                    status: c.status.clone(),
                    user: "docker".to_owned(),
                    cmd,
                    strategy: Strategy::Docker,
                },
            );
        }
        assert(app::row_views(rows@) =~= all_rows(a));
        rows
    }

    /// Builds the rows anew from what is known; see [`built`].
    pub fn build_rows(&mut self)
        requires
            old(self).wf(),
        ensures
            final(self)@ == built(old(self)@),
            final(self).wf(),
    {
        let ghost a = self@;
        let mut all = self.make_all_rows();
        if self.filter.as_str().is_empty() {
            self.rows = all;
        } else {
            let q = self.filter.to_lowercase();
            let ghost av = app::row_views(all@);
            let ghost f = |r: app::RowView| filtered(r, a.filter);
            let mut kept: Vec<Row> = Vec::new();
            assert(av.take(0) =~= Seq::<app::RowView>::empty());
            assert(app::row_views(kept@) =~= Seq::<app::RowView>::empty());
            for row in it: all
                invariant
                    av == app::row_views(it.seq()),
                    av.len() == it.seq().len(),
                    q@ == text::lowercase(a.filter),
                    f == (|r: app::RowView| filtered(r, a.filter)),
                    app::row_views(kept@) == split::filter_map(av.take(it.index() as int), f),
                    forall|j: int|
                        0 <= j < it.seq().len() ==> app::row_wf(
                            (#[trigger] it.seq()[j])@,
                            a.manager.services.len(),
                        ),
                    forall|j: int|
                        0 <= j < kept@.len() ==> app::row_wf(
                            (#[trigger] kept@[j])@,
                            a.manager.services.len(),
                        ),
            {
                let ghost before = app::row_views(kept@);
                let ghost n = it.index() as int;
                proof {
                    assert(av.take(n + 1).drop_last() =~= av.take(n));
                    assert(av.take(n + 1).last() == row@);
                }
                let name = row.name.to_lowercase();
                let cmd = row.cmd.to_lowercase();
                if row_matches(name.as_str(), cmd.as_str(), row.port, q.as_str()) {
                    let ghost rv = row@;
                    kept.push(row);
                    assert(app::row_views(kept@) =~= before.push(rv));
                }
            }
            assert(av.take(av.len() as int) =~= av);
            self.rows = kept;
        }
        let last: usize = if self.rows.len() == 0 {
            0
        } else {
            self.rows.len() - 1
        };
        match self.table.selected {
            Some(i) => if i > last {
                self.table.select(last);
            },
            None => if self.rows.len() > 0 {
                self.table.select(0);
            },
        }
        self.track_cpu();
    }

    fn track_cpu(&mut self)
        ensures
            final(self)@ == (app::AppView {
                cpu_hist: next_histories(old(self)@.cpu_hist, old(self)@.system, old(self)@.rows),
                ..old(self)@
            }),
            final(self).manager == old(self).manager,
    {
        let ghost a = self@;
        let mut fresh: HashMap<i32, VecDeque<u64>> = HashMap::new();
        let n = self.rows.len();
        for i in 0..n
            invariant
                a == self@,
                n == self.rows@.len(),
                *self == *old(self),
                forall|pid: i32|
                    #![trigger fresh@.contains_key(pid)]
                    fresh@.contains_key(pid) <==> row_has_pid(a.rows.take(i as int), pid),
                forall|pid: i32|
                    #![trigger fresh@[pid]]
                    fresh@.contains_key(pid) ==> fresh@[pid]@ == sampled(
                        a.cpu_hist,
                        pid,
                        cpu_of(a.system, pid),
                    ),
        {
            let ghost earlier = a.rows.take(i as int);
            let ghost now = a.rows.take(i + 1);
            proof {
                assert(a.rows[i as int] == self.rows@[i as int]@);
                assert forall|p: i32| row_has_pid(now, p) <==> (row_has_pid(earlier, p)
                    || a.rows[i as int].pid == Some(p)) by {
                    if row_has_pid(now, p) {
                        let k = choose|k: int|
                            0 <= k < now.len() && (#[trigger] now[k]).pid == Some(p);
                        if k < i {
                            assert(earlier[k].pid == Some(p));
                        }
                    }
                    if row_has_pid(earlier, p) {
                        let k = choose|k: int|
                            0 <= k < earlier.len() && (#[trigger] earlier[k]).pid == Some(p);
                        assert(now[k].pid == Some(p));
                    }
                    if a.rows[i as int].pid == Some(p) {
                        assert(now[i as int].pid == Some(p));
                    }
                }
            }
            if let Some(pid) = self.rows[i].pid {
                if !fresh.contains_key(&pid) {
                    let cpu = match process(&self.system, pid) {
                        Some(p) => p.cpu,
                        None => 0,
                    };
                    let h = sample(&self.cpu_hist, pid, cpu);
                    fresh.insert(pid, h);
                }
            }
        }
        self.cpu_hist = fresh;
        proof {
            assert(a.rows.take(n as int) =~= a.rows);
            assert(self@.cpu_hist =~= next_histories(a.cpu_hist, a.system, a.rows));
        }
    }

    /// Warns of port conflicts, once; see [`warned`].
    pub fn warn_conflicts_once(&mut self)
        requires
            old(self).wf(),
        ensures
            final(self)@ == warned(old(self)@),
            final(self).wf(),
    {
        if self.warned_conflicts {
            return;
        }
        let ghost a = self@;
        self.warned_conflicts = true;
        let ghost f = |r: app::RowView| conflict_of(r);
        let mut conflicts: Vec<String> = Vec::new();
        let word = "conflict".to_owned();
        let n = self.rows.len();
        assert(a.rows.take(0) =~= Seq::<app::RowView>::empty());
        assert(text::texts(conflicts@) =~= Seq::<Seq<char>>::empty());
        for i in 0..n
            invariant
                n == self.rows@.len(),
                self@ == (app::AppView { warned_conflicts: true, ..a }),
                self.wf(),
                word@ == "conflict"@,
                f == (|r: app::RowView| conflict_of(r)),
                text::texts(conflicts@) == split::filter_map(a.rows.take(i as int), f),
        {
            let ghost before = text::texts(conflicts@);
            let row = &self.rows[i];
            proof {
                assert(a.rows.take(i + 1).drop_last() =~= a.rows.take(i as int));
                assert(a.rows.take(i + 1).last() == a.rows[i as int]);
                assert(self@.rows[i as int] == row@);
            }
            if row.status == word {
                let mut t = row.name.clone();
                push_text(&mut t, " (port ");
                let p: u64 = match row.port {
                    Some(p) => p as u64,
                    None => 0,
                };
                push_decimal(&mut t, p);
                push_text(&mut t, ")");
                let ghost tv = t@;
                conflicts.push(t);
                assert(text::texts(conflicts@) =~= before.push(tv));
            }
        }
        assert(a.rows.take(n as int) =~= a.rows);
        if conflicts.len() > 0 {
            let mut m = "port conflict: ".to_owned();
            let list = join_strings(&conflicts, ", ");
            push_text(&mut m, list.as_str());
            self.say(m);
        }
    }

    /// Brings the table up to date after a look at the system.
    pub fn refresh(&mut self)
        requires
            old(self).wf(),
        ensures
            final(self)@ == warned(built(old(self)@)),
            final(self).wf(),
    {
        self.build_rows();
        self.warn_conflicts_once();
    }
}

} // verus!
