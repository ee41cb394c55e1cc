//! The state of the panel.
use std::collections::{HashMap, VecDeque};
use vstd::prelude::*;
use crate::adopt;
use crate::docker;
use crate::docker::Container;
use crate::manager;
use crate::manager::Manager;
use crate::platform::Os;
use crate::ports;
use crate::ports::PortEntry;
use crate::services;
use crate::services::ServiceConfig;
use crate::system;
use crate::system::{process, Lookup, Process};
use crate::table::TableState;
use crate::text;

verus! {

broadcast use vstd::std_specs::hash::group_hash_axioms;

/// The time between two looks at the system, in milliseconds.
pub const POLL_INTERVAL: u64 = 2_000;

/// How long a process may ignore a request to exit before it is killed.
pub const KILL_ESCALATE_AFTER: u64 = 3_000;

/// How long a respawn waits for the old process to exit.
pub const RESPAWN_GIVE_UP: u64 = 15_000;

/// How long after a respawn an exit counts as a failure of it.
pub const RESPAWN_CRASH_WINDOW: u64 = 500;

/// How many samples of a process's processor use are kept.
pub const CPU_HISTORY: usize = 60;

/// How many messages the event log keeps.
pub const EVENT_CAP: usize = 1000;

/// Table border (1) + header row (1) above the first data row.
pub const TABLE_HEADER_ROWS: u16 = 2;

/// Width of the trailing restart column, which holds the longest label; click target for the
/// mouse handler.
pub const RESTART_COL_WIDTH: u16 = 12;

/// What the pane below the table shows.
#[derive(Debug, Clone, Copy, PartialEq, Eq, Structural)]
pub enum Pane {
    Logs,
    Usage,
    EnvDiff,
    Details,
    Events,
}

/// A part of the screen.
#[derive(Debug, Clone, Copy, PartialEq, Eq, Structural)]
pub struct Rect {
    pub x: u16,
    pub y: u16,
    pub width: u16,
    pub height: u16,
}

/// What a row of the table is about.
#[derive(Clone)]
pub enum RowKind {
    Service(usize),
    Process,
    Container { id: String },
}

/// What a [`RowKind`] says.
pub ghost enum RowKindView {
    Service(usize),
    Process,
    Container { id: Seq<char> },
}

impl View for RowKind {
    type V = RowKindView;

    open spec fn view(&self) -> RowKindView {
        match *self {
            RowKind::Service(i) => RowKindView::Service(i),
            RowKind::Process => RowKindView::Process,
            RowKind::Container { id } => RowKindView::Container { id: id@ },
        }
    }
}

/// How something is restarted.
#[derive(Clone)]
pub enum Strategy {
    /// By the manager, as one of its services.
    Managed,
    /// By starting the configured service whose port it holds in its place.
    Configured(usize),
    /// By systemd, as this unit.
    Systemd(String),
    /// By launchd, as this agent.
    Launchd(String),
    Docker,
    /// By running its command line through the shell.
    Shell,
    /// By running its command line directly.
    Naive,
    /// Not at all: its command line is not known.
    Unknown,
}

/// What a [`Strategy`] says.
pub ghost enum StrategyView {
    Managed,
    Configured(usize),
    Systemd(Seq<char>),
    Launchd(Seq<char>),
    Docker,
    Shell,
    Naive,
    Unknown,
}

impl View for Strategy {
    type V = StrategyView;

    open spec fn view(&self) -> StrategyView {
        match *self {
            Strategy::Managed => StrategyView::Managed,
            Strategy::Configured(i) => StrategyView::Configured(i),
            Strategy::Systemd(u) => StrategyView::Systemd(u@),
            Strategy::Launchd(l) => StrategyView::Launchd(l@),
            Strategy::Docker => StrategyView::Docker,
            Strategy::Shell => StrategyView::Shell,
            Strategy::Naive => StrategyView::Naive,
            Strategy::Unknown => StrategyView::Unknown,
        }
    }
}

/// A row of the table.
#[derive(Clone)]
pub struct Row {
    pub kind: RowKind,
    pub port: Option<u16>,
    pub pid: Option<i32>,
    pub name: String,
    pub status: String,
    pub user: String,
    pub cmd: String,
    pub strategy: Strategy,
}

/// What a [`Row`] says.
pub ghost struct RowView {
    pub kind: RowKindView,
    pub port: Option<u16>,
    pub pid: Option<i32>,
    pub name: Seq<char>,
    pub status: Seq<char>,
    pub user: Seq<char>,
    pub cmd: Seq<char>,
    pub strategy: StrategyView,
}

impl View for Row {
    type V = RowView;

    open spec fn view(&self) -> RowView {
        RowView {
            kind: self.kind@,
            port: self.port,
            pid: self.pid,
            name: self.name@,
            status: self.status@,
            user: self.user@,
            cmd: self.cmd@,
            strategy: self.strategy@,
        }
    }
}

/// What a list of rows says.
pub open spec fn row_views(v: Seq<Row>) -> Seq<RowView> {
    Seq::new(v.len(), |i: int| v[i]@)
}

/// An action that waits for its confirmation.
pub enum Pending {
    Kill { pid: i32, name: String },
    Restart {
        pid: i32,
        name: String,
        cmd: Vec<String>,
        cwd: Option<String>,
        port: Option<u16>,
        strategy: Strategy,
    },
    ServiceStop(usize),
    ServiceRestart(usize),
    ContainerStop { id: String, name: String },
    ContainerRestart { id: String, name: String },
    StackStop,
    StackRestart,
    /// A process that becomes a configured service.
    Adopt(ServiceConfig),
}

/// What a [`Pending`] says.
pub ghost enum PendingView {
    Kill { pid: i32, name: Seq<char> },
    Restart {
        pid: i32,
        name: Seq<char>,
        cmd: Seq<Seq<char>>,
        cwd: Option<Seq<char>>,
        port: Option<u16>,
        strategy: StrategyView,
    },
    ServiceStop(usize),
    ServiceRestart(usize),
    ContainerStop { id: Seq<char>, name: Seq<char> },
    ContainerRestart { id: Seq<char>, name: Seq<char> },
    StackStop,
    StackRestart,
    Adopt(services::ServiceConfigView),
}

impl View for Pending {
    type V = PendingView;

    open spec fn view(&self) -> PendingView {
        match *self {
            Pending::Kill { pid, name } => PendingView::Kill { pid, name: name@ },
            Pending::Restart { pid, name, cmd, cwd, port, strategy } => PendingView::Restart {
                pid,
                name: name@,
                cmd: text::texts(cmd@),
                cwd: text::opt_text(cwd),
                port,
                strategy: strategy@,
            },
            Pending::ServiceStop(i) => PendingView::ServiceStop(i),
            Pending::ServiceRestart(i) => PendingView::ServiceRestart(i),
            Pending::ContainerStop { id, name } => PendingView::ContainerStop {
                id: id@,
                name: name@,
            },
            Pending::ContainerRestart { id, name } => PendingView::ContainerRestart {
                id: id@,
                name: name@,
            },
            Pending::StackStop => PendingView::StackStop,
            Pending::StackRestart => PendingView::StackRestart,
            Pending::Adopt(cfg) => PendingView::Adopt(cfg@),
        }
    }
}

/// What an optional pending action says.
pub open spec fn opt_pending(o: Option<Pending>) -> Option<PendingView> {
    match o {
        Some(p) => Some(p@),
        None => None,
    }
}

/// What is run once a process has exited.
pub enum Revival {
    /// A command line, directly or through the shell.
    Command { cmd: Vec<String>, cwd: Option<String>, shell: bool },
    /// A managed service.
    Service(usize),
}

/// What a [`Revival`] says.
pub ghost enum RevivalView {
    Command { cmd: Seq<Seq<char>>, cwd: Option<Seq<char>>, shell: bool },
    Service(usize),
}

impl View for Revival {
    type V = RevivalView;

    open spec fn view(&self) -> RevivalView {
        match *self {
            Revival::Command { cmd, cwd, shell } => RevivalView::Command {
                cmd: text::texts(cmd@),
                cwd: text::opt_text(cwd),
                shell,
            },
            Revival::Service(i) => RevivalView::Service(i),
        }
    }
}

/// A process that was asked to exit, and what is run once it has.
pub struct Respawn {
    pub pid: i32,
    pub revival: Revival,
    pub since: u64,
}

/// What a [`Respawn`] says.
pub ghost struct RespawnView {
    pub pid: i32,
    pub revival: RevivalView,
    pub since: u64,
}

impl View for Respawn {
    type V = RespawnView;

    open spec fn view(&self) -> RespawnView {
        RespawnView { pid: self.pid, revival: self.revival@, since: self.since }
    }
}

/// What a list of respawns says.
pub open spec fn respawn_views(v: Seq<Respawn>) -> Seq<RespawnView> {
    Seq::new(v.len(), |i: int| v[i]@)
}

/// A just-spawned respawn candidate, watched for a couple ticks to catch the instant-exit
/// failure mode (missing shell/wrapper env) without blocking.
pub struct RespawnWatch {
    pub pid: i32,
    pub cmd: Vec<String>,
    pub since: u64,
}

/// What a [`RespawnWatch`] says.
pub ghost struct RespawnWatchView {
    pub pid: i32,
    pub cmd: Seq<Seq<char>>,
    pub since: u64,
}

impl View for RespawnWatch {
    type V = RespawnWatchView;

    open spec fn view(&self) -> RespawnWatchView {
        RespawnWatchView { pid: self.pid, cmd: text::texts(self.cmd@), since: self.since }
    }
}

/// What a list of watched respawns says.
pub open spec fn watch_views(v: Seq<RespawnWatch>) -> Seq<RespawnWatchView> {
    Seq::new(v.len(), |i: int| v[i]@)
}

/// The histories that a map of them holds.
pub open spec fn histories(m: Map<i32, VecDeque<u64>>) -> Map<i32, Seq<u64>> {
    m.map_values(|v: VecDeque<u64>| v@)
}

/// The panel: what is known of the system, what is shown, and what is under way.
pub struct App {
    pub os: Os,
    pub own_pid: i32,
    pub is_root: bool,
    pub system: Vec<Process>,
    pub lookups: Vec<Lookup>,
    pub manager: Manager,
    pub containers: Vec<Container>,
    pub docker_ok: bool,
    pub external: Vec<PortEntry>,
    pub rows: Vec<Row>,
    pub table: TableState,
    /// Screen area the table was last drawn to; used to hit-test mouse clicks.
    pub table_area: Rect,
    pub pane: Option<Pane>,
    pub log_scroll: usize,
    pub filter: String,
    pub filter_editing: bool,
    pub pending: Option<Pending>,
    pub term_sent: Vec<(i32, u64)>,
    pub respawns: Vec<Respawn>,
    pub respawn_watches: Vec<RespawnWatch>,
    pub cpu_hist: HashMap<i32, VecDeque<u64>>,
    pub message: String,
    pub events: VecDeque<String>,
    pub warned_conflicts: bool,
}

/// What an [`App`] holds.
pub ghost struct AppView {
    pub os: Os,
    pub own_pid: i32,
    pub is_root: bool,
    pub system: Seq<system::ProcessView>,
    pub lookups: Seq<system::LookupView>,
    pub manager: manager::ManagerView,
    pub containers: Seq<docker::ContainerView>,
    pub docker_ok: bool,
    pub external: Seq<ports::PortEntryView>,
    pub rows: Seq<RowView>,
    pub table: TableState,
    pub table_area: Rect,
    pub pane: Option<Pane>,
    pub log_scroll: usize,
    pub filter: Seq<char>,
    pub filter_editing: bool,
    pub pending: Option<PendingView>,
    pub term_sent: Seq<(i32, u64)>,
    pub respawns: Seq<RespawnView>,
    pub respawn_watches: Seq<RespawnWatchView>,
    pub cpu_hist: Map<i32, Seq<u64>>,
    pub message: Seq<char>,
    pub events: Seq<Seq<char>>,
    pub warned_conflicts: bool,
}

impl View for App {
    type V = AppView;

    open spec fn view(&self) -> AppView {
        AppView {
            os: self.os,
            own_pid: self.own_pid,
            is_root: self.is_root,
            system: system::processes(self.system@),
            lookups: system::lookup_views(self.lookups@),
            manager: self.manager@,
            containers: docker::containers(self.containers@),
            docker_ok: self.docker_ok,
            external: ports::entries(self.external@),
            rows: row_views(self.rows@),
            table: self.table,
            table_area: self.table_area,
            pane: self.pane,
            log_scroll: self.log_scroll,
            filter: self.filter@,
            filter_editing: self.filter_editing,
            pending: opt_pending(self.pending),
            term_sent: self.term_sent@,
            respawns: respawn_views(self.respawns@),
            respawn_watches: watch_views(self.respawn_watches@),
            cpu_hist: histories(self.cpu_hist@),
            message: self.message@,
            events: text::texts(self.events@),
            warned_conflicts: self.warned_conflicts,
        }
    }
}

// ------------------------------------------------------------------ meaning

/// The last `n` items of a sequence, or all when there are no more.
pub open spec fn tail<A>(s: Seq<A>, n: nat) -> Seq<A> {
    if s.len() > n {
        s.skip(s.len() - n)
    } else {
        s
    }
}

/// Whether a row is about something that there is: a service of the manager, or a process.
pub open spec fn row_wf(r: RowView, services: nat) -> bool {
    match r.kind {
        RowKindView::Service(i) => i < services,
        RowKindView::Process => r.pid is Some,
        RowKindView::Container { .. } => true,
    }
}

/// Whether a pending action can be carried out.
pub open spec fn pending_wf(p: PendingView, services: nat) -> bool {
    match p {
        PendingView::ServiceStop(i) => i < services,
        PendingView::ServiceRestart(i) => i < services,
        PendingView::Restart { cmd, strategy, .. } => match strategy {
            StrategyView::Configured(i) => i < services,
            StrategyView::Systemd(_) => true,
            StrategyView::Launchd(_) => true,
            StrategyView::Shell => cmd.len() > 0,
            StrategyView::Naive => cmd.len() > 0,
            _ => false,
        },
        PendingView::Adopt(cfg) => adopt::config_quotable(cfg),
        _ => true,
    }
}

/// Whether a respawn can be carried out.
pub open spec fn revival_wf(r: RevivalView, services: nat) -> bool {
    match r {
        RevivalView::Command { cmd, .. } => cmd.len() > 0,
        RevivalView::Service(i) => i < services,
    }
}

/// Whether no history is longer than it may be.
pub open spec fn histories_wf(hist: Map<i32, Seq<u64>>) -> bool {
    forall|pid: i32| #[trigger] hist.contains_key(pid) ==> hist[pid].len() <= CPU_HISTORY
}

impl AppView {
    /// What always holds of the panel: its rows, its pending action and its respawns are about
    /// things that there are, and no history of processor use is longer than it may be.
    pub open spec fn wf(self) -> bool {
        &&& histories_wf(self.cpu_hist)
        &&& forall|i: int|
            0 <= i < self.rows.len() ==> row_wf(#[trigger] self.rows[i], self.manager.services.len())
        &&& self.pending is Some ==> pending_wf(self.pending->0, self.manager.services.len())
        &&& forall|i: int|
            0 <= i < self.respawns.len() ==> revival_wf(
                (#[trigger] self.respawns[i]).revival,
                self.manager.services.len(),
            )
    }

    /// The panel with a new message, which also goes to the event log.
    pub open spec fn say(self, message: Seq<char>) -> AppView {
        AppView {
            message,
            events: tail(self.events.push(message), EVENT_CAP as nat),
            ..self
        }
    }

    /// The panel with new messages, the last of which stays.
    pub open spec fn say_all(self, messages: Seq<Seq<char>>) -> AppView
        decreases messages.len(),
    {
        if messages.len() == 0 {
            self
        } else {
            self.say_all(messages.drop_last()).say(messages.last())
        }
    }

    /// The selected row, when there is one.
    pub open spec fn selected_row(self) -> Option<RowView> {
        match self.table.selected {
            Some(i) => if i < self.rows.len() {
                Some(self.rows[i as int])
            } else {
                None
            },
            None => None,
        }
    }

    /// Whether a process is alive.
    pub open spec fn alive(self, pid: i32) -> bool {
        system::alive(self.system, pid)
    }
}

/// A panel stays in order when services are added and nothing else that refers to them changes.
pub proof fn more_services_keep_wf(a: AppView, b: AppView)
    requires
        a.wf(),
        b.rows == a.rows,
        b.pending is None || b.pending == a.pending,
        b.respawns == a.respawns,
        b.cpu_hist == a.cpu_hist,
        b.manager.services.len() >= a.manager.services.len(),
    ensures
        b.wf(),
{
    assert forall|i: int| 0 <= i < b.rows.len() implies row_wf(
        #[trigger] b.rows[i],
        b.manager.services.len(),
    ) by {
        assert(row_wf(a.rows[i], a.manager.services.len()));
    }
    assert forall|i: int| 0 <= i < b.respawns.len() implies revival_wf(
        (#[trigger] b.respawns[i]).revival,
        b.manager.services.len(),
    ) by {
        assert(revival_wf(a.respawns[i].revival, a.manager.services.len()));
    }
}

/// A panel that has not looked at the system yet.
pub open spec fn fresh(
    manager: manager::ManagerView,
    os: Os,
    own_pid: i32,
    is_root: bool,
) -> AppView {
    AppView {
        os,
        own_pid,
        is_root,
        system: Seq::empty(),
        lookups: Seq::empty(),
        manager,
        containers: Seq::empty(),
        docker_ok: true,
        external: Seq::empty(),
        rows: Seq::empty(),
        table: TableState { selected: None, offset: 0 },
        table_area: Rect { x: 0, y: 0, width: 0, height: 0 },
        pane: None,
        log_scroll: 0,
        filter: Seq::empty(),
        filter_editing: false,
        pending: None,
        term_sent: Seq::empty(),
        respawns: Seq::empty(),
        respawn_watches: Seq::empty(),
        cpu_hist: Map::empty(),
        message: "ready"@,
        events: Seq::empty(),
        warned_conflicts: false,
    }
}

// ------------------------------------------------------------------ execution

impl Strategy {
    /// A copy of a strategy.
    pub fn copy(&self) -> (r: Self)
        ensures
            r@ == self@,
    {
        match self {
            Strategy::Managed => Strategy::Managed,
            Strategy::Configured(i) => Strategy::Configured(*i),
            Strategy::Systemd(u) => Strategy::Systemd(u.clone()),
            Strategy::Launchd(l) => Strategy::Launchd(l.clone()),
            Strategy::Docker => Strategy::Docker,
            Strategy::Shell => Strategy::Shell,
            Strategy::Naive => Strategy::Naive,
            Strategy::Unknown => Strategy::Unknown,
        }
    }
}

impl App {
    /// Whether the panel and its manager are in order.
    pub open spec fn wf(self) -> bool {
        self@.wf() && self.manager.wf()
    }

    pub fn new(manager: Manager, os: Os, own_pid: i32, is_root: bool) -> (r: Self)
        requires
            manager.wf(),
        ensures
            r@ == fresh(manager@, os, own_pid, is_root),
            r.wf(),
    {
        let r = App {
            os,
            own_pid,
            is_root,
            system: Vec::new(),
            lookups: Vec::new(),
            manager,
            containers: Vec::new(),
            docker_ok: true,
            external: Vec::new(),
            rows: Vec::new(),
            table: TableState { selected: None, offset: 0 },
            table_area: Rect { x: 0, y: 0, width: 0, height: 0 },
            pane: None,
            log_scroll: 0,
            filter: String::new(),
            filter_editing: false,
            pending: None,
            term_sent: Vec::new(),
            respawns: Vec::new(),
            respawn_watches: Vec::new(),
            cpu_hist: HashMap::new(),
            message: "ready".to_owned(),
            events: VecDeque::new(),
            warned_conflicts: false,
        };
        proof {
            let want = fresh(manager@, os, own_pid, is_root);
            assert(r@.system =~= want.system);
            assert(r@.lookups =~= want.lookups);
            assert(r@.containers =~= want.containers);
            assert(r@.external =~= want.external);
            assert(r@.rows =~= want.rows);
            assert(r@.term_sent =~= want.term_sent);
            assert(r@.respawns =~= want.respawns);
            assert(r@.respawn_watches =~= want.respawn_watches);
            assert(r@.cpu_hist =~= want.cpu_hist);
            assert(r@.events =~= want.events);
        }
        r
    }

    /// Shows a message and keeps it in the event log.
    pub fn say(&mut self, message: String)
        ensures
            final(self)@ == old(self)@.say(message@),
            old(self).wf() ==> final(self).wf(),
    {
        let ghost before = text::texts(self.events@);
        let ghost m = message@;
        self.message = message.clone();
        self.events.push_back(message);
        assert(text::texts(self.events@) =~= before.push(m));
        while self.events.len() > EVENT_CAP
            invariant
                tail(text::texts(self.events@), EVENT_CAP as nat) == tail(
                    before.push(m),
                    EVENT_CAP as nat,
                ),
                self@ == (AppView { message: m, events: text::texts(self.events@), ..old(self)@ }),
                self.manager == old(self).manager,
            decreases self.events@.len(),
        {
            let ghost now = text::texts(self.events@);
            self.events.pop_front();
            proof {
                assert(text::texts(self.events@) =~= now.skip(1));
                assert(tail(now.skip(1), EVENT_CAP as nat) =~= tail(now, EVENT_CAP as nat));
            }
        }
    }

    /// The row that is selected, when there is one.
    pub fn selected_row(&self) -> (r: Option<&Row>)
        ensures
            match r {
                Some(row) => self@.selected_row() == Some(row@),
                None => self@.selected_row() is None,
            },
    {
        match self.table.selected {
            Some(i) => if i < self.rows.len() {
                Some(&self.rows[i])
            } else {
                None
            },
            None => None,
        }
    }

    /// Whether a process is alive.
    pub fn alive(&self, pid: i32) -> (r: bool)
        ensures
            r == self@.alive(pid),
    {
        process(&self.system, pid).is_some()
    }
}

} // verus!
