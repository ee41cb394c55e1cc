//! Managed services: configuration, child lifecycle, logs, health, crash detection with
//! backoff. Times are milliseconds on a clock that never runs back.
use std::collections::VecDeque;
use vstd::prelude::*;
use crate::text;
use crate::text::{copy_option, push_text};

verus! {

pub const CONFIG_FILE: &'static str = "dev-panel.toml";

/// How many lines of a service's output are kept. Lines of the panel's own are added without
/// making room and do not count: a log may hold that many more.
pub const LOG_CAP: usize = 1000;

/// How long a service may take to answer its health probe after it was started.
pub const STARTING_GRACE: u64 = 5_000;

/// How long a service may take to exit after it was asked to.
pub const STOP_ESCALATE_AFTER: u64 = 3_000;

/// The wait before the first automatic restart.
pub const BACKOFF_INITIAL: u64 = 1_000;

/// The longest wait before an automatic restart.
pub const BACKOFF_MAX: u64 = 30_000;

/// A service as the configuration file describes it.
#[derive(Debug, Clone)]
pub struct ServiceConfig {
    pub name: String,
    pub cmd: String,
    pub cwd: Option<String>,
    pub port: Option<u16>,
    pub health_url: Option<String>,
    pub auto_restart: bool,
}

/// The whole configuration: the services in file order, and the order of the stack when one
/// is given.
#[derive(Debug)]
pub struct Config {
    pub services: Vec<ServiceConfig>,
    pub stack: Option<Vec<String>>,
}

/// What a [`ServiceConfig`] says.
pub ghost struct ServiceConfigView {
    pub name: Seq<char>,
    pub cmd: Seq<char>,
    pub cwd: Option<Seq<char>>,
    pub port: Option<u16>,
    pub health_url: Option<Seq<char>>,
    pub auto_restart: bool,
}

impl View for ServiceConfig {
    type V = ServiceConfigView;

    open spec fn view(&self) -> ServiceConfigView {
        ServiceConfigView {
            name: self.name@,
            cmd: self.cmd@,
            cwd: text::opt_text(self.cwd),
            port: self.port,
            health_url: text::opt_text(self.health_url),
            auto_restart: self.auto_restart,
        }
    }
}

#[derive(Debug, Clone, Copy, PartialEq, Eq, Structural)]
pub enum Status {
    Stopped,
    Starting,
    Up,
    Down,
    Crashed,
    /// Crashed with auto_restart — waiting out the backoff.
    Scheduled,
}

/// The word for a status.
pub open spec fn status_label(s: Status) -> Seq<char> {
    match s {
        Status::Stopped => "stopped"@,
        Status::Starting => "starting"@,
        Status::Up => "up"@,
        Status::Down => "down"@,
        Status::Crashed => "crashed"@,
        Status::Scheduled => "restarting"@,
    }
}

impl Status {
    pub fn label(self) -> (r: &'static str)
        ensures
            r@ == status_label(self),
    {
        match self {
            Status::Stopped => "stopped",
            Status::Starting => "starting",
            Status::Up => "up",
            Status::Down => "down",
            Status::Crashed => "crashed",
            Status::Scheduled => "restarting",
        }
    }
}

/// A managed service and the child process that runs it.
pub struct Service {
    pub cfg: ServiceConfig,
    pub status: Status,
    pub logs: VecDeque<String>,
    /// The child's process id while it has not been seen to exit.
    pub child: Option<i32>,
    pub started: Option<u64>,
    pub stop_requested: Option<u64>,
    pub user_stopped: bool,
    pub restart_pending: bool,
    pub backoff: u64,
    pub restart_at: Option<u64>,
}

/// What a [`Service`] holds.
pub ghost struct ServiceView {
    pub cfg: ServiceConfigView,
    pub status: Status,
    pub logs: Seq<Seq<char>>,
    pub child: Option<i32>,
    pub started: Option<u64>,
    pub stop_requested: Option<u64>,
    pub user_stopped: bool,
    pub restart_pending: bool,
    pub backoff: u64,
    pub restart_at: Option<u64>,
}

impl View for Service {
    type V = ServiceView;

    open spec fn view(&self) -> ServiceView {
        ServiceView {
            cfg: self.cfg@,
            status: self.status,
            logs: text::texts(self.logs@),
            child: self.child,
            started: self.started,
            stop_requested: self.stop_requested,
            user_stopped: self.user_stopped,
            restart_pending: self.restart_pending,
            backoff: self.backoff,
            restart_at: self.restart_at,
        }
    }
}

/// A service of which nothing has been started yet.
pub open spec fn fresh(cfg: ServiceConfigView) -> ServiceView {
    ServiceView {
        cfg,
        status: Status::Stopped,
        logs: Seq::empty(),
        child: None,
        started: None,
        stop_requested: None,
        user_stopped: false,
        restart_pending: false,
        backoff: BACKOFF_INITIAL,
        restart_at: None,
    }
}

/// What always holds of a service: the wait before the next restart is one that the backoff
/// allows, and a restart is scheduled only for a service that does not run and is configured
/// for it.
pub open spec fn service_wf(s: ServiceView) -> bool {
    &&& BACKOFF_INITIAL <= s.backoff <= BACKOFF_MAX
    &&& s.restart_at is Some ==> s.cfg.auto_restart && s.child is None
}

/// What a child that exited leaves behind, and whether the service is to be started again at
/// once. A restart that was asked for wins over everything, then a stop; what is left is a
/// crash, which schedules a restart when the service is configured for that.
pub open spec fn reaped(s: ServiceView, now: u64) -> (ServiceView, bool) {
    if s.restart_pending {
        (ServiceView { child: None, restart_pending: false, ..s }, true)
    } else if s.user_stopped {
        (ServiceView { child: None, status: Status::Stopped, ..s }, false)
    } else {
        let logs = s.logs.push("[dev-panel] process exited unexpectedly"@);
        if s.cfg.auto_restart {
            (
                ServiceView {
                    child: None,
                    logs,
                    status: Status::Scheduled,
                    restart_at: Some((now + s.backoff) as u64),
                    backoff: if s.backoff * 2 <= BACKOFF_MAX {
                        (s.backoff * 2) as u64
                    } else {
                        BACKOFF_MAX
                    },
                    ..s
                },
                false,
            )
        } else {
            (ServiceView { child: None, logs, status: Status::Crashed, ..s }, false)
        }
    }
}

/// Whether the restart that a tick schedules, if it does, is at a moment that the clock has.
pub open spec fn restart_fits(s: ServiceView, wait: Wait, now: u64) -> bool {
    s.child is Some && wait is Exited && !s.restart_pending && !s.user_stopped && s.cfg.auto_restart
        ==> now + s.backoff <= u64::MAX
}

/// The time from one moment to another, zero when the other came first.
pub open spec fn elapsed(since: u64, now: u64) -> int {
    if now >= since {
        now - since
    } else {
        0
    }
}

/// The status of a service whose child runs, given whether it answered its probe. With nothing
/// to probe, running is the best that is known.
pub open spec fn health_of(s: ServiceView, healthy: bool, now: u64) -> Status {
    if s.cfg.port is None && s.cfg.health_url is None {
        Status::Up
    } else if healthy {
        Status::Up
    } else if s.started is Some && elapsed(s.started->0, now) < STARTING_GRACE {
        Status::Starting
    } else {
        Status::Down
    }
}

/// What becomes of a service whose child still runs, and whether the child is to be killed: a
/// child that was asked to stop has a while to do so, any other has its health checked.
pub open spec fn checked(s: ServiceView, healthy: bool, now: u64) -> (ServiceView, bool) {
    match s.stop_requested {
        Some(at) => if elapsed(at, now) >= STOP_ESCALATE_AFTER {
            (
                ServiceView {
                    logs: s.logs.push("[dev-panel] escalated to SIGKILL"@),
                    stop_requested: None,
                    ..s
                },
                true,
            )
        } else {
            (s, false)
        },
        None => {
            let status = health_of(s, healthy, now);
            (
                ServiceView {
                    status,
                    backoff: if status is Up {
                        BACKOFF_INITIAL
                    } else {
                        s.backoff
                    },
                    ..s
                },
                false,
            )
        },
    }
}

/// What was seen of a child.
pub enum Wait {
    Exited,
    /// It runs; whether it answered its probe.
    Running { healthy: bool },
    /// It could not be asked; the reason.
    Failed(String),
}

/// What a tick does with a service: the service after it, whether its child is to be killed,
/// and whether it is to be started.
pub open spec fn ticked(s: ServiceView, wait: Wait, now: u64) -> (ServiceView, bool, bool) {
    if s.child is Some {
        match wait {
            Wait::Exited => (reaped(s, now).0, false, reaped(s, now).1),
            Wait::Running { healthy } => (
                checked(s, healthy, now).0,
                checked(s, healthy, now).1,
                false,
            ),
            Wait::Failed(e) => (
                ServiceView { logs: s.logs.push("[dev-panel] wait failed: "@ + e@), ..s },
                false,
                false,
            ),
        }
    } else {
        (s, false, s.restart_at is Some && now >= s.restart_at->0)
    }
}

/// A service whose child was just spawned.
pub open spec fn started(s: ServiceView, pid: i32, now: u64) -> ServiceView {
    ServiceView {
        child: Some(pid),
        status: Status::Starting,
        started: Some(now),
        stop_requested: None,
        user_stopped: false,
        restart_at: None,
        ..s
    }
}

/// A service that its user stopped, given whether the signal could be sent.
pub open spec fn stopped(s: ServiceView, sent: Result<i32, String>, now: u64) -> ServiceView {
    if s.child is Some {
        ServiceView {
            user_stopped: true,
            restart_at: None,
            stop_requested: Some(now),
            logs: match sent {
                Ok(_) => s.logs,
                Err(e) => s.logs.push("[dev-panel] stop failed: "@ + e@),
            },
            ..s
        }
    } else {
        ServiceView { user_stopped: true, restart_at: None, ..s }
    }
}

/// The log with one more line of output; the oldest makes room when the log is full.
pub open spec fn logged(logs: Seq<Seq<char>>, line: Seq<char>) -> Seq<Seq<char>> {
    if logs.len() >= LOG_CAP {
        logs.skip(1).push(line)
    } else {
        logs.push(line)
    }
}

/// What the table shows as a service's status: a service that is up also shows which probe
/// found it so.
pub open spec fn status_text_of(s: ServiceView) -> Seq<char> {
    if s.status is Up && s.cfg.health_url is Some {
        "up (200)"@
    } else if s.status is Up && s.cfg.port is Some {
        "up (port)"@
    } else {
        status_label(s.status)
    }
}

impl ServiceConfig {
    /// A copy of a configuration.
    pub fn copy(&self) -> (r: Self)
        ensures
            r@ == self@,
    {
        ServiceConfig {
            name: self.name.clone(),
            cmd: self.cmd.clone(),
            cwd: copy_option(&self.cwd),
            port: self.port,
            health_url: copy_option(&self.health_url),
            auto_restart: self.auto_restart,
        }
    }
}

impl Service {
    /// Whether the service is in order; see [`service_wf`].
    pub open spec fn wf(self) -> bool {
        service_wf(self@)
    }

    /// A service of which nothing has been started yet.
    pub fn new(cfg: ServiceConfig) -> (r: Self)
        ensures
            r@ == fresh(cfg@),
            r.wf(),
    {
        let r = Service {
            cfg,
            status: Status::Stopped,
            logs: VecDeque::new(),
            child: None,
            started: None,
            stop_requested: None,
            user_stopped: false,
            restart_pending: false,
            backoff: BACKOFF_INITIAL,
            restart_at: None,
        };
        assert(text::texts(r.logs@) =~= Seq::<Seq<char>>::empty());
        r
    }

    pub fn pid(&self) -> (r: Option<i32>)
        ensures
            r == self@.child,
    {
        self.child
    }

    pub fn running(&self) -> (r: bool)
        ensures
            r == (self@.child is Some),
    {
        self.child.is_some()
    }

    /// What the table shows as the status; see [`status_text_of`].
    pub fn status_text(&self) -> (r: String)
        ensures
            r@ == status_text_of(self@),
    {
        if self.status == Status::Up && self.health_url_set() {
            "up (200)".to_owned()
        } else if self.status == Status::Up && self.cfg.port.is_some() {
            "up (port)".to_owned()
        } else {
            self.status.label().to_owned()
        }
    }

    fn health_url_set(&self) -> (r: bool)
        ensures
            r == (self@.cfg.health_url is Some),
    {
        self.cfg.health_url.is_some()
    }

    /// Adds a line of the panel's own to the log. It makes no room, so it may bring the log past
    /// [`LOG_CAP`].
    pub fn note(&mut self, line: String)
        ensures
            final(self)@ == (ServiceView { logs: old(self)@.logs.push(line@), ..old(self)@ }),
            final(self).wf() == old(self).wf(),
    {
        let ghost before = self.logs@;
        let ghost text = line@;
        self.logs.push_back(line);
        assert(text::texts(self.logs@) =~= text::texts(before).push(text));
    }

    /// Keeps a line of output; see [`logged`].
    pub fn push_log(&mut self, line: String)
        ensures
            final(self)@ == (ServiceView {
                logs: logged(old(self)@.logs, line@),
                ..old(self)@
            }),
            final(self).wf() == old(self).wf(),
    {
        let ghost before = text::texts(self.logs@);
        if self.logs.len() >= LOG_CAP {
            self.logs.pop_front();
            assert(text::texts(self.logs@) =~= before.skip(1));
        }
        self.note(line);
    }

    /// The status that the probe's answer gives; see [`health_of`].
    pub fn health(&self, healthy: bool, now: u64) -> (r: Status)
        ensures
            r == health_of(self@, healthy, now),
    {
        if self.cfg.port.is_none() && !self.health_url_set() {
            return Status::Up;
        }
        if healthy {
            return Status::Up;
        }
        match self.started {
            Some(t) => if now.saturating_sub(t) < STARTING_GRACE {
                Status::Starting
            } else {
                Status::Down
            },
            None => Status::Down,
        }
    }

    fn reap(&mut self, now: u64) -> (start: bool)
        requires
            old(self).wf(),
            old(self)@.child is Some,
            restart_fits(old(self)@, Wait::Exited, now),
        ensures
            final(self)@ == reaped(old(self)@, now).0,
            start == reaped(old(self)@, now).1,
            final(self).wf(),
    {
        self.child = None;
        if self.restart_pending {
            self.restart_pending = false;
            return true;
        }
        if self.user_stopped {
            self.status = Status::Stopped;
            return false;
        }
        self.status = Status::Crashed;
        self.note("[dev-panel] process exited unexpectedly".to_owned());
        if self.cfg.auto_restart {
            self.status = Status::Scheduled;
            self.restart_at = Some(now + self.backoff);
            self.backoff = if self.backoff * 2 <= BACKOFF_MAX {
                self.backoff * 2
            } else {
                BACKOFF_MAX
            };
        }
        false
    }

    fn check(&mut self, healthy: bool, now: u64) -> (kill: bool)
        requires
            old(self).wf(),
        ensures
            final(self)@ == checked(old(self)@, healthy, now).0,
            kill == checked(old(self)@, healthy, now).1,
            final(self).wf(),
    {
        match self.stop_requested {
            Some(at) => if now.saturating_sub(at) >= STOP_ESCALATE_AFTER {
                self.note("[dev-panel] escalated to SIGKILL".to_owned());
                self.stop_requested = None;
                true
            } else {
                false
            },
            None => {
                self.status = self.health(healthy, now);
                if self.status == Status::Up {
                    self.backoff = BACKOFF_INITIAL;
                }
                false
            },
        }
    }

    /// One tick of one service; see [`ticked`]. Gives back whether to kill its child and
    /// whether to start it.
    pub fn tick(&mut self, wait: &Wait, now: u64) -> (r: (bool, bool))
        requires
            old(self).wf(),
            restart_fits(old(self)@, *wait, now),
        ensures
            final(self)@ == ticked(old(self)@, *wait, now).0,
            r.0 == ticked(old(self)@, *wait, now).1,
            r.1 == ticked(old(self)@, *wait, now).2,
            final(self).wf(),
    {
        if self.child.is_some() {
            match wait {
                Wait::Exited => (false, self.reap(now)),
                Wait::Running { healthy } => (self.check(*healthy, now), false),
                Wait::Failed(e) => {
                    let mut line = "[dev-panel] wait failed: ".to_owned();
                    push_text(&mut line, e.as_str());
                    self.note(line);
                    (false, false)
                },
            }
        } else {
            match self.restart_at {
                Some(t) => (false, now >= t),
                None => (false, false),
            }
        }
    }

    pub fn mark_started(&mut self, pid: i32, now: u64)
        ensures
            final(self)@ == started(old(self)@, pid, now),
            old(self).wf() ==> final(self).wf(),
    {
        self.child = Some(pid);
        self.status = Status::Starting;
        self.started = Some(now);
        self.stop_requested = None;
        self.user_stopped = false;
        self.restart_at = None;
    }

    pub fn mark_stopped(&mut self, sent: &Result<i32, String>, now: u64)
        ensures
            final(self)@ == stopped(old(self)@, *sent, now),
            old(self).wf() ==> final(self).wf(),
    {
        self.user_stopped = true;
        self.restart_at = None;
        if self.child.is_some() {
            if let Err(e) = sent {
                let mut line = "[dev-panel] stop failed: ".to_owned();
                push_text(&mut line, e.as_str());
                self.note(line);
            }
            self.stop_requested = Some(now);
        }
    }
}

} // verus!
