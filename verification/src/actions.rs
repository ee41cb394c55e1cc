//! What the user asks for: requests, their confirmation, and the outside calls they need.
use vstd::prelude::*;
use crate::adopt;
use crate::adopt::is_config_quotable;
use crate::app;
use crate::app::{App, Pending, Row, RowKind, Strategy};
use crate::rows;
use crate::services;
use crate::services::ServiceConfig;
use crate::split;
use crate::split::join_strings;
use crate::system;
use crate::system::{process, Lookup};
use crate::text;
use crate::text::{
    copy_option, copy_strings, is_text, push_signed, push_text,
};

verus! {

// ------------------------------------------------------------------ guardrails

/// Whether a process is another or one of its ancestors, at most `fuel` generations up.
pub open spec fn is_ancestor(a: app::AppView, pid: i32, of: i32, fuel: nat) -> bool
    decreases fuel,
{
    pid == of || (fuel > 0 && match system::process_of(a.system, of) {
        Some(p) => match p.parent {
            Some(q) => is_ancestor(a, pid, q, (fuel - 1) as nat),
            None => false,
        },
        None => false,
    })
}

/// Whether a process is of the tree that the panel's own process hangs on: the panel itself or
/// one of its ancestors. There are no more generations than processes; see
/// [`crate::laws::all_ancestors_are_found`].
pub open spec fn in_own_tree(a: app::AppView, pid: i32) -> bool {
    is_ancestor(a, pid, a.own_pid, a.system.len())
}

/// Why the process of a row must not be killed: process 1, the panel's own process tree, and
/// processes of root's for any other user are out of bounds.
pub open spec fn guard(a: app::AppView, row: app::RowView) -> Option<Seq<char>> {
    match row.pid {
        None => None,
        Some(pid) => if pid == 1 {
            Some("refusing to touch PID 1"@)
        } else if in_own_tree(a, pid) {
            Some("that's dev-panel's own process tree"@)
        } else if row.user == "root"@ && !a.is_root {
            Some(row.name + " is root-owned; not running as root"@)
        } else {
            None
        },
    }
}

// ------------------------------------------------------------------ requests

/// The panel after it was asked to kill what is selected: the action waits for confirmation,
/// unless there is a reason against it.
pub open spec fn kill_requested(a: app::AppView) -> app::AppView {
    match a.selected_row() {
        None => a,
        Some(row) => match row.kind {
            app::RowKindView::Service(i) => if a.manager.services[i as int].child is Some {
                app::AppView { pending: Some(app::PendingView::ServiceStop(i)), ..a }
            } else {
                a.say("service is not running"@)
            },
            app::RowKindView::Container { id } => app::AppView {
                pending: Some(app::PendingView::ContainerStop { id, name: row.name }),
                ..a
            },
            app::RowKindView::Process => match guard(a, row) {
                Some(reason) => a.say(reason),
                None => app::AppView {
                    pending: Some(app::PendingView::Kill { pid: row.pid->0, name: row.name }),
                    ..a
                },
            },
        },
    }
}

/// The panel after it was asked to restart what is selected, given what was found out about
/// the process.
pub open spec fn restart_requested(a: app::AppView, lookup: system::LookupView) -> app::AppView {
    match a.selected_row() {
        None => a,
        Some(row) => match row.kind {
            app::RowKindView::Service(i) => app::AppView {
                pending: Some(app::PendingView::ServiceRestart(i)),
                ..a
            },
            app::RowKindView::Container { id } => app::AppView {
                pending: Some(app::PendingView::ContainerRestart { id, name: row.name }),
                ..a
            },
            app::RowKindView::Process => match guard(a, row) {
                Some(reason) => a.say(reason),
                None => {
                    let pid = row.pid->0;
                    let cmd = rows::known_command(a.system, pid, lookup);
                    let strategy = rows::process_strategy(
                        a.manager,
                        a.os,
                        pid,
                        row.port,
                        cmd,
                        lookup,
                    );
                    if strategy is Unknown {
                        a.say("no command line captured; can't restart"@)
                    } else {
                        app::AppView {
                            pending: Some(
                                app::PendingView::Restart {
                                    pid,
                                    name: row.name,
                                    cmd,
                                    cwd: system::cwd_of(
                                        system::process_of(a.system, pid),
                                        lookup,
                                    ),
                                    port: row.port,
                                    strategy,
                                },
                            ),
                            ..a
                        }
                    }
                },
            },
        },
    }
}

/// The configuration that makes a service of a process.
pub open spec fn adopted_config(
    name: Seq<char>,
    cmd: Seq<Seq<char>>,
    cwd: Option<Seq<char>>,
    port: Option<u16>,
) -> services::ServiceConfigView {
    services::ServiceConfigView {
        name,
        cmd: split::join(cmd, " "@),
        cwd,
        port,
        health_url: None,
        auto_restart: false,
    }
}

/// The panel asked to adopt a process of which this is known.
pub open spec fn adoption(
    a: app::AppView,
    name: Seq<char>,
    cmd: Seq<Seq<char>>,
    cwd: Option<Seq<char>>,
    port: Option<u16>,
) -> app::AppView {
    if cmd.len() == 0 {
        a.say("no command line captured; can't adopt"@)
    } else if !adopt::config_quotable(adopted_config(name, cmd, cwd, port)) {
        a.say("too many quotes in a row; can't adopt"@)
    } else {
        app::AppView {
            pending: Some(app::PendingView::Adopt(adopted_config(name, cmd, cwd, port))),
            ..a
        }
    }
}

/// The panel after it was asked to adopt a process as a service: the one whose restart waits
/// for confirmation, or else the selected one.
pub open spec fn adopt_requested(a: app::AppView, lookup: system::LookupView) -> app::AppView {
    match a.pending {
        Some(app::PendingView::Restart { name, cmd, cwd, port, .. }) => adoption(
            a,
            name,
            cmd,
            cwd,
            port,
        ),
        _ => match a.selected_row() {
            None => a,
            Some(row) => match row.kind {
                app::RowKindView::Process => {
                    let pid = row.pid->0;
                    adoption(
                        a,
                        row.name,
                        rows::known_command(a.system, pid, lookup),
                        system::cwd_of(system::process_of(a.system, pid), lookup),
                        row.port,
                    )
                },
                _ => a.say("a adopts external processes only"@),
            },
        },
    }
}

/// The message when there is nothing to start.
pub open spec fn no_services_text() -> Seq<char> {
    "no services configured ("@ + services::CONFIG_FILE@ + ")"@
}

/// The panel after it was asked for something of the whole stack.
pub open spec fn stack_requested(a: app::AppView, pending: app::PendingView) -> app::AppView {
    if a.manager.services.len() == 0 {
        a.say(no_services_text())
    } else {
        app::AppView { pending: Some(pending), ..a }
    }
}

// ------------------------------------------------------------------ the question

/// What is asked about a pending action.
pub open spec fn question(a: app::AppView) -> Option<Seq<char>> {
    match a.pending {
        None => None,
        Some(p) => Some(
            match p {
                app::PendingView::Kill { pid, name } => "Kill "@ + text::signed_decimal(pid as int)
                    + " ("@ + name + ")?"@,
                app::PendingView::Restart { pid, name, strategy, .. } => match strategy {
                    app::StrategyView::Systemd(unit) => "Restart "@ + name + " ("@
                        + text::signed_decimal(pid as int) + ") via systemctl restart "@ + unit
                        + "?"@,
                    app::StrategyView::Launchd(label) => "Restart "@ + name + " ("@
                        + text::signed_decimal(pid as int) + ") via launchctl kickstart -k "@
                        + label + "?"@,
                    _ => "Restart "@ + text::signed_decimal(pid as int) + " ("@ + name + ")?"@,
                },
                app::PendingView::ServiceStop(i) => "Stop service "@
                    + a.manager.services[i as int].cfg.name + "?"@,
                app::PendingView::ServiceRestart(i) => "Restart service "@
                    + a.manager.services[i as int].cfg.name + "?"@,
                app::PendingView::ContainerStop { name, .. } => "Stop container "@ + name + "?"@,
                app::PendingView::ContainerRestart { name, .. } => "Restart container "@ + name
                    + "?"@,
                app::PendingView::StackStop => "Stop the whole stack?"@,
                app::PendingView::StackRestart => "Restart the whole stack?"@,
                app::PendingView::Adopt(cfg) => "Adopt "@ + cfg.name + " into "@
                    + services::CONFIG_FILE@ + "?"@,
            },
        ),
    }
}

/// The word for a strategy.
pub open spec fn strategy_label(s: app::StrategyView) -> Seq<char> {
    match s {
        app::StrategyView::Managed => "managed"@,
        app::StrategyView::Configured(_) => "configured"@,
        app::StrategyView::Systemd(_) => "systemd"@,
        app::StrategyView::Launchd(_) => "launchd"@,
        app::StrategyView::Docker => "docker"@,
        app::StrategyView::Shell => "shell"@,
        app::StrategyView::Naive => "naive"@,
        app::StrategyView::Unknown => "unknown"@,
    }
}

/// A text, or a dash in place of none.
pub open spec fn or_dash(t: Seq<char>) -> Seq<char> {
    if t.len() == 0 {
        "-"@
    } else {
        t
    }
}

/// What is shown of a restart before it is confirmed: the strategy, the command and where it
/// runs.
pub open spec fn preview(a: app::AppView) -> Seq<Seq<char>> {
    match a.pending {
        Some(app::PendingView::Restart { cmd, cwd, strategy, .. }) => seq![
            "strategy: "@ + strategy_label(strategy),
            "cmd: "@ + or_dash(split::join(cmd, " "@)),
            "cwd: "@ + (match cwd {
                Some(d) => d,
                None => "-"@,
            }),
        ],
        Some(app::PendingView::ServiceRestart(i)) => seq![
            "strategy: "@ + strategy_label(app::StrategyView::Managed),
            "cmd: "@ + or_dash(a.manager.services[i as int].cfg.cmd),
            "cwd: "@ + (match a.manager.services[i as int].cfg.cwd {
                Some(d) => d,
                None => "-"@,
            }),
        ],
        _ => Seq::empty(),
    }
}

// ------------------------------------------------------------------ execution of requests

fn dash_for_empty(t: String) -> (r: String)
    ensures
        r@ == or_dash(t@),
{
    if t.as_str().is_empty() {
        "-".to_owned()
    } else {
        t
    }
}

fn dash_for_none(o: &Option<String>) -> (r: String)
    ensures
        r@ == (match text::opt_text(*o) {
            Some(d) => d,
            None => "-"@,
        }),
{
    match o {
        Some(d) => d.clone(),
        None => "-".to_owned(),
    }
}

fn no_services_message() -> (r: String)
    ensures
        r@ == no_services_text(),
{
    let mut m = "no services configured (".to_owned();
    push_text(&mut m, services::CONFIG_FILE);
    push_text(&mut m, ")");
    m
}

impl Strategy {
    /// The word for a strategy.
    pub fn label(&self) -> (r: &'static str)
        ensures
            r@ == strategy_label(self@),
    {
        match self {
            Strategy::Managed => "managed",
            Strategy::Configured(_) => "configured",
            Strategy::Systemd(_) => "systemd",
            Strategy::Launchd(_) => "launchd",
            Strategy::Docker => "docker",
            Strategy::Shell => "shell",
            Strategy::Naive => "naive",
            Strategy::Unknown => "unknown",
        }
    }
}

impl App {
    /// Whether a process is of the panel's own tree; see [`in_own_tree`].
    pub fn is_own(&self, pid: i32) -> (r: bool)
        ensures
            r == in_own_tree(self@, pid),
    {
        let mut of = self.own_pid;
        let mut left: usize = self.system.len();
        while left > 0
            invariant
                in_own_tree(self@, pid) == is_ancestor(self@, pid, of, left as nat),
            decreases left,
        {
            if pid == of {
                return true;
            }
            of = match process(&self.system, of) {
                Some(p) => match p.parent {
                    Some(q) => q,
                    None => {
                        return false;
                    },
                },
                None => {
                    return false;
                },
            };
            left = left - 1;
        }
        pid == of
    }

    /// Why the process of a row must not be killed; see [`guard`].
    pub fn kill_guard(&self, row: &Row) -> (r: Option<String>)
        ensures
            text::opt_text(r) == guard(self@, row@),
    {
        let pid = match row.pid {
            Some(p) => p,
            None => {
                return None;
            },
        };
        if pid == 1 {
            return Some("refusing to touch PID 1".to_owned());
        }
        if self.is_own(pid) {
            return Some("that's dev-panel's own process tree".to_owned());
        }
        if is_text(row.user.as_str(), "root") && !self.is_root {
            let mut m = row.name.clone();
            push_text(&mut m, " is root-owned; not running as root");
            return Some(m);
        }
        None
    }

    /// Asks for confirmation to kill what is selected; see [`kill_requested`].
    pub fn request_kill(&mut self)
        requires
            old(self).wf(),
        ensures
            final(self)@ == kill_requested(old(self)@),
            final(self).wf(),
    {
        let row = match self.selected_row() {
            Some(row) => row,
            None => {
                return;
            },
        };
        assert(app::row_wf(row@, self@.manager.services.len()));
        match &row.kind {
            RowKind::Service(i) => {
                let i = *i;
                if self.manager.services[i].running() {
                    self.pending = Some(Pending::ServiceStop(i));
                } else {
                    self.say("service is not running".to_owned());
                }
            },
            RowKind::Container { id } => {
                let p = Pending::ContainerStop { id: id.clone(), name: row.name.clone() };
                self.pending = Some(p);
            },
            RowKind::Process => match self.kill_guard(row) {
                Some(reason) => {
                    self.say(reason);
                },
                None => {
                    let pid = match row.pid {
                        Some(pid) => pid,
                        None => 0,
                    };
                    let p = Pending::Kill { pid, name: row.name.clone() };
                    self.pending = Some(p);
                },
            },
        }
    }

    /// The process about which a restart needs to be looked up.
    pub fn lookup_pid(&self) -> (r: Option<i32>)
        ensures
            r == (match self@.selected_row() {
                Some(row) => if row.kind is Process {
                    row.pid
                } else {
                    None
                },
                None => None,
            }),
    {
        match self.selected_row() {
            Some(row) => match row.kind {
                RowKind::Process => row.pid,
                _ => None,
            },
            None => None,
        }
    }

    /// Asks for confirmation to restart what is selected; see [`restart_requested`].
    pub fn request_restart(&mut self, lookup: &Lookup)
        requires
            old(self).wf(),
        ensures
            final(self)@ == restart_requested(old(self)@, lookup@),
            final(self).wf(),
    {
        let row = match self.selected_row() {
            Some(row) => row,
            None => {
                return;
            },
        };
        assert(app::row_wf(row@, self@.manager.services.len()));
        match &row.kind {
            RowKind::Service(i) => {
                let p = Pending::ServiceRestart(*i);
                self.pending = Some(p);
            },
            RowKind::Container { id } => {
                let p = Pending::ContainerRestart { id: id.clone(), name: row.name.clone() };
                self.pending = Some(p);
            },
            RowKind::Process => {
                if let Some(reason) = self.kill_guard(row) {
                    self.say(reason);
                    return;
                }
                let pid = match row.pid {
                    Some(pid) => pid,
                    None => 0,
                };
                let cmd = self.command_for(pid, lookup);
                let cwd = self.cwd_for(pid, lookup);
                let strategy = self.strategy_for(pid, row.port, &cmd, lookup);
                if let Strategy::Unknown = strategy {
                    self.say("no command line captured; can't restart".to_owned());
                    return;
                }
                let p = Pending::Restart {
                    pid,
                    name: row.name.clone(),
                    cmd,
                    cwd,
                    port: row.port,
                    strategy,
                };
                self.pending = Some(p);
            },
        }
    }

    /// The working directory of a process; see [`system::cwd_of`].
    pub fn cwd_for(&self, pid: i32, lookup: &Lookup) -> (r: Option<String>)
        ensures
            text::opt_text(r) == system::cwd_of(system::process_of(self@.system, pid), lookup@),
    {
        if let Some(p) = process(&self.system, pid) {
            if let Some(d) = &p.cwd {
                return Some(d.clone());
            }
        }
        crate::platform::lsof_cwd(&lookup.lsof)
    }

    fn adopt_this(
        &mut self,
        name: String,
        cmd: Vec<String>,
        cwd: Option<String>,
        port: Option<u16>,
    )
        requires
            old(self).wf(),
        ensures
            final(self)@ == adoption(
                old(self)@,
                name@,
                text::texts(cmd@),
                text::opt_text(cwd),
                port,
            ),
            final(self).wf(),
    {
        if cmd.len() == 0 {
            self.say("no command line captured; can't adopt".to_owned());
        } else {
            let cfg = ServiceConfig {
                name,
                cmd: join_strings(&cmd, " "),
                cwd,
                port,
                health_url: None,
                auto_restart: false,
            };
            if is_config_quotable(&cfg) {
                self.pending = Some(Pending::Adopt(cfg));
            } else {
                self.say("too many quotes in a row; can't adopt".to_owned());
            }
        }
    }

    /// The process about which an adoption needs to be looked up: none when it takes over a
    /// pending restart, about which all is known.
    pub fn adopt_pid(&self) -> (r: Option<i32>)
        ensures
            r == (match self@.pending {
                Some(app::PendingView::Restart { .. }) => None,
                _ => match self@.selected_row() {
                    Some(row) => if row.kind is Process {
                        row.pid
                    } else {
                        None
                    },
                    None => None,
                },
            }),
    {
        match self.pending {
            Some(Pending::Restart { .. }) => None,
            _ => self.lookup_pid(),
        }
    }

    /// Asks for confirmation to adopt a process as a service; see [`adopt_requested`].
    pub fn request_adopt(&mut self, lookup: &Lookup)
        requires
            old(self).wf(),
        ensures
            final(self)@ == adopt_requested(old(self)@, lookup@),
            final(self).wf(),
    {
        if let Some(Pending::Restart { name, cmd, cwd, port, .. }) = &self.pending {
            let n = name.clone();
            let c = copy_strings(cmd);
            let d = copy_option(cwd);
            let p = *port;
            self.adopt_this(n, c, d, p);
            return;
        }
        let row = match self.selected_row() {
            Some(row) => row,
            None => {
                return;
            },
        };
        assert(app::row_wf(row@, self@.manager.services.len()));
        match row.kind {
            RowKind::Process => {
                let pid = match row.pid {
                    Some(pid) => pid,
                    None => 0,
                };
                let name = row.name.clone();
                let port = row.port;
                let cmd = self.command_for(pid, lookup);
                let cwd = self.cwd_for(pid, lookup);
                self.adopt_this(name, cmd, cwd, port);
            },
            _ => {
                self.say("a adopts external processes only".to_owned());
            },
        }
    }

    /// Asks for confirmation to stop the whole stack.
    pub fn request_stack_stop(&mut self)
        requires
            old(self).wf(),
        ensures
            final(self)@ == stack_requested(old(self)@, app::PendingView::StackStop),
            final(self).wf(),
    {
        if self.manager.services.len() == 0 {
            self.say(no_services_message());
        } else {
            self.pending = Some(Pending::StackStop);
        }
    }

    /// Asks for confirmation to restart the whole stack.
    pub fn request_stack_restart(&mut self)
        requires
            old(self).wf(),
        ensures
            final(self)@ == stack_requested(old(self)@, app::PendingView::StackRestart),
            final(self).wf(),
    {
        if self.manager.services.len() == 0 {
            self.say(no_services_message());
        } else {
            self.pending = Some(Pending::StackRestart);
        }
    }

    /// What is asked about the pending action; see [`question`].
    pub fn describe_pending(&self) -> (r: Option<String>)
        requires
            self.wf(),
        ensures
            text::opt_text(r) == question(self@),
    {
        let p = match &self.pending {
            Some(p) => p,
            None => {
                return None;
            },
        };
        let m = match p {
            Pending::Kill { pid, name } => {
                let mut m = "Kill ".to_owned();
                push_signed(&mut m, *pid);
                push_text(&mut m, " (");
                push_text(&mut m, name.as_str());
                push_text(&mut m, ")?");
                m
            },
            Pending::Restart { pid, name, strategy, .. } => match strategy {
                Strategy::Systemd(unit) => {
                    let mut m = "Restart ".to_owned();
                    push_text(&mut m, name.as_str());
                    push_text(&mut m, " (");
                    push_signed(&mut m, *pid);
                    push_text(&mut m, ") via systemctl restart ");
                    push_text(&mut m, unit.as_str());
                    push_text(&mut m, "?");
                    m
                },
                Strategy::Launchd(label) => {
                    let mut m = "Restart ".to_owned();
                    push_text(&mut m, name.as_str());
                    push_text(&mut m, " (");
                    push_signed(&mut m, *pid);
                    push_text(&mut m, ") via launchctl kickstart -k ");
                    push_text(&mut m, label.as_str());
                    push_text(&mut m, "?");
                    m
                },
                _ => {
                    let mut m = "Restart ".to_owned();
                    push_signed(&mut m, *pid);
                    push_text(&mut m, " (");
                    push_text(&mut m, name.as_str());
                    push_text(&mut m, ")?");
                    m
                },
            },
            Pending::ServiceStop(i) => {
                let mut m = "Stop service ".to_owned();
                push_text(&mut m, self.manager.services[*i].cfg.name.as_str());
                push_text(&mut m, "?");
                m
            },
            Pending::ServiceRestart(i) => {
                let mut m = "Restart service ".to_owned();
                push_text(&mut m, self.manager.services[*i].cfg.name.as_str());
                push_text(&mut m, "?");
                m
            },
            Pending::ContainerStop { name, .. } => {
                let mut m = "Stop container ".to_owned();
                push_text(&mut m, name.as_str());
                push_text(&mut m, "?");
                m
            },
            Pending::ContainerRestart { name, .. } => {
                let mut m = "Restart container ".to_owned();
                push_text(&mut m, name.as_str());
                push_text(&mut m, "?");
                m
            },
            Pending::StackStop => "Stop the whole stack?".to_owned(),
            Pending::StackRestart => "Restart the whole stack?".to_owned(),
            Pending::Adopt(cfg) => {
                let mut m = "Adopt ".to_owned();
                push_text(&mut m, cfg.name.as_str());
                push_text(&mut m, " into ");
                push_text(&mut m, services::CONFIG_FILE);
                push_text(&mut m, "?");
                m
            },
        };
        Some(m)
    }

    /// What is shown of a restart before it is confirmed; see [`preview`].
    pub fn preview_pending(&self) -> (r: Vec<String>)
        requires
            self.wf(),
        ensures
            text::texts(r@) == preview(self@),
    {
        let mut out: Vec<String> = Vec::new();
        let mut strategy = "strategy: ".to_owned();
        let mut cmd_line = "cmd: ".to_owned();
        let mut cwd_line = "cwd: ".to_owned();
        match &self.pending {
            Some(Pending::Restart { cmd, cwd, strategy: s, .. }) => {
                push_text(&mut strategy, s.label());
                let c = dash_for_empty(join_strings(cmd, " "));
                push_text(&mut cmd_line, c.as_str());
                let d = dash_for_none(cwd);
                push_text(&mut cwd_line, d.as_str());
            },
            Some(Pending::ServiceRestart(i)) => {
                let cfg = &self.manager.services[*i].cfg;
                push_text(&mut strategy, Strategy::Managed.label());
                let c = dash_for_empty(cfg.cmd.clone());
                push_text(&mut cmd_line, c.as_str());
                let d = dash_for_none(&cfg.cwd);
                push_text(&mut cwd_line, d.as_str());
            },
            _ => {
                assert(text::texts(out@) =~= preview(self@));
                return out;
            },
        }
        out.push(strategy);
        out.push(cmd_line);
        out.push(cwd_line);
        assert(text::texts(out@) =~= preview(self@));
        out
    }
}

} // verus!
