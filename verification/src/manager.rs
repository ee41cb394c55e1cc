//! The manager of the configured services: starting, stopping, restarting, ticking, and the
//! session that is resumed on the next launch.
use vstd::prelude::*;
use crate::health;
use crate::health::{parse_health_url, HttpTarget};
use crate::services;
use crate::services::{Config, Service, ServiceConfig, Wait};
use crate::split;
use crate::split::{join_strings, split_lines, trimmed};
use crate::text;
use crate::text::{chars_of, copy_option, push_text, string_of};

verus! {

/// All managed services, and the order in which the stack is started when one is given.
pub struct Manager {
    pub services: Vec<Service>,
    pub stack: Option<Vec<String>>,
    /// Whether what runs has changed since the session was last written.
    pub unsaved: bool,
}

/// What a [`Manager`] holds.
pub ghost struct ManagerView {
    pub services: Seq<services::ServiceView>,
    pub stack: Option<Seq<Seq<char>>>,
    pub unsaved: bool,
}

/// What a list of services holds.
pub open spec fn service_views(v: Seq<Service>) -> Seq<services::ServiceView> {
    Seq::new(v.len(), |i: int| v[i]@)
}

/// What a list of configurations says.
pub open spec fn config_views(v: Seq<ServiceConfig>) -> Seq<services::ServiceConfigView> {
    Seq::new(v.len(), |i: int| v[i]@)
}

/// The texts of an optional list of strings.
pub open spec fn opt_texts(o: Option<Vec<String>>) -> Option<Seq<Seq<char>>> {
    match o {
        Some(v) => Some(text::texts(v@)),
        None => None,
    }
}

impl View for Manager {
    type V = ManagerView;

    open spec fn view(&self) -> ManagerView {
        ManagerView {
            services: service_views(self.services@),
            stack: opt_texts(self.stack),
            unsaved: self.unsaved,
        }
    }
}

/// What became of the configuration file.
pub enum ConfigSource {
    /// There is none.
    Missing,
    /// It was read; the configuration in it, or what is wrong with it.
    Read(Result<Config, String>),
    /// It could not be read; the reason.
    Unreadable(String),
}

/// The command line of a service, to run through the shell, and where.
pub struct Launch {
    /// Which service it is.
    pub service: usize,
    pub cmd: String,
    pub cwd: Option<String>,
}

/// What a [`Launch`] says.
pub ghost struct LaunchView {
    pub service: usize,
    pub cmd: Seq<char>,
    pub cwd: Option<Seq<char>>,
}

impl View for Launch {
    type V = LaunchView;

    open spec fn view(&self) -> LaunchView {
        LaunchView {
            service: self.service,
            cmd: self.cmd@,
            cwd: text::opt_text(self.cwd),
        }
    }
}

/// What an optional launch says.
pub open spec fn opt_launch(o: Option<Launch>) -> Option<LaunchView> {
    match o {
        Some(l) => Some(l@),
        None => None,
    }
}

/// What probes the health of a service.
pub enum Probe {
    /// Nothing: the service does not run, is being stopped, or has no address.
    Nothing,
    /// A connection to a local port.
    Tcp(u16),
    /// A GET request.
    Http(HttpTarget),
    /// The health URL is not one that can be asked.
    Unsupported,
}

/// What probes the health of a service, in its view.
pub ghost enum ProbeView {
    Nothing,
    Tcp(u16),
    Http(health::HttpTargetView),
    Unsupported,
}

impl View for Probe {
    type V = ProbeView;

    open spec fn view(&self) -> ProbeView {
        match *self {
            Probe::Nothing => ProbeView::Nothing,
            Probe::Tcp(p) => ProbeView::Tcp(p),
            Probe::Http(t) => ProbeView::Http(t@),
            Probe::Unsupported => ProbeView::Unsupported,
        }
    }
}

/// What is done with the session file.
pub enum SessionWrite {
    Remove,
    Write(String),
}

/// The error text of a result.
pub open spec fn err_text<T>(r: Result<T, String>) -> Option<Seq<char>> {
    match r {
        Ok(_) => None,
        Err(e) => Some(e@),
    }
}

// ------------------------------------------------------------------ meaning

/// The error for a configuration file that could not be used.
pub open spec fn config_error_text(reason: Seq<char>) -> Seq<char> {
    services::CONFIG_FILE@ + ": "@ + reason
}

/// A manager of services none of which has been started.
pub open spec fn loaded(
    cfgs: Seq<services::ServiceConfigView>,
    stack: Option<Seq<Seq<char>>>,
) -> ManagerView {
    ManagerView {
        services: Seq::new(cfgs.len(), |i: int| services::fresh(cfgs[i])),
        stack,
        unsaved: false,
    }
}

impl ManagerView {
    /// The manager with one service replaced.
    pub open spec fn with(self, i: int, s: services::ServiceView) -> ManagerView {
        ManagerView { services: self.services.update(i, s), ..self }
    }

    /// What is spawned to start a service; nothing when it already runs.
    pub open spec fn launch(self, i: int) -> Option<LaunchView> {
        let s = self.services[i];
        if s.child is Some {
            None
        } else {
            Some(LaunchView { service: i as usize, cmd: s.cfg.cmd, cwd: s.cfg.cwd })
        }
    }

    /// The manager after a service was to be started, given how spawning its command went: a
    /// service that runs stays as it is, and so does one that could not be spawned.
    pub open spec fn start(self, i: int, spawned: Result<i32, String>, now: u64) -> ManagerView {
        if self.services[i].child is Some {
            self
        } else {
            match spawned {
                Ok(pid) => ManagerView {
                    unsaved: true,
                    ..self.with(i, services::started(self.services[i], pid, now))
                },
                Err(_) => self,
            }
        }
    }

    /// Why a service could not be started.
    pub open spec fn start_error(self, i: int, spawned: Result<i32, String>) -> Option<Seq<char>> {
        if self.services[i].child is Some {
            None
        } else {
            err_text(spawned)
        }
    }

    /// The manager after a service was to be stopped, given how the signal went.
    pub open spec fn stop(self, i: int, sent: Result<i32, String>, now: u64) -> ManagerView {
        ManagerView {
            unsaved: true,
            ..self.with(i, services::stopped(self.services[i], sent, now))
        }
    }

    /// The manager after a service was to be restarted: one that runs is stopped and marked to
    /// be started again, any other is started.
    pub open spec fn restart(self, i: int, reply: Result<i32, String>, now: u64) -> ManagerView {
        if self.services[i].child is Some {
            self.with(
                i,
                services::ServiceView { restart_pending: true, ..self.services[i] },
            ).stop(i, reply, now)
        } else {
            self.start(i, reply, now)
        }
    }

    /// The manager after a tick, given what was seen of each child.
    pub open spec fn tick(self, waits: Seq<Wait>, now: u64) -> ManagerView {
        ManagerView {
            services: Seq::new(
                self.services.len(),
                |i: int| services::ticked(self.services[i], waits[i], now).0,
            ),
            ..self
        }
    }

    /// The services among the first `n` whose child a tick kills.
    pub open spec fn kills(self, waits: Seq<Wait>, now: u64, n: nat) -> Seq<usize>
        decreases n,
    {
        if n == 0 {
            Seq::empty()
        } else {
            let before = self.kills(waits, now, (n - 1) as nat);
            if services::ticked(self.services[n - 1], waits[n - 1], now).1 {
                before.push((n - 1) as usize)
            } else {
                before
            }
        }
    }

    /// The services among the first `n` that a tick starts.
    pub open spec fn starts(self, waits: Seq<Wait>, now: u64, n: nat) -> Seq<usize>
        decreases n,
    {
        if n == 0 {
            Seq::empty()
        } else {
            let before = self.starts(waits, now, (n - 1) as nat);
            if services::ticked(self.services[n - 1], waits[n - 1], now).2 {
                before.push((n - 1) as usize)
            } else {
                before
            }
        }
    }

    /// The manager after a tick's start of a service: a failure is logged and counts as a
    /// crash.
    pub open spec fn tick_start(self, i: int, spawned: Result<i32, String>, now: u64) -> ManagerView {
        match self.start_error(i, spawned) {
            None => self.start(i, spawned, now),
            Some(e) => self.with(
                i,
                services::ServiceView {
                    logs: self.services[i].logs.push("[dev-panel] restart failed: "@ + e),
                    status: services::Status::Crashed,
                    ..self.services[i]
                },
            ),
        }
    }

    /// The first service of a name, from `from` on.
    pub open spec fn find(self, name: Seq<char>, from: int) -> Option<int>
        decreases self.services.len() - from,
    {
        if from < 0 || from >= self.services.len() {
            None
        } else if self.services[from].cfg.name == name {
            Some(from)
        } else {
            self.find(name, from + 1)
        }
    }

    /// The manager after a service of a saved session was to be started; a name of no service
    /// changes nothing.
    pub open spec fn resume(self, name: Seq<char>, spawned: Result<i32, String>, now: u64) -> ManagerView {
        match self.find(name, 0) {
            None => self,
            Some(i) => self.start(i, spawned, now),
        }
    }

    /// What is said of a service of a saved session.
    pub open spec fn resume_text(self, name: Seq<char>, spawned: Result<i32, String>) -> Seq<char> {
        match self.find(name, 0) {
            None => "session had unknown service "@ + name,
            Some(i) => match self.start_error(i, spawned) {
                None => "resumed "@ + name,
                Some(e) => "resume "@ + name + " failed: "@ + e,
            },
        }
    }

    /// The names of the services among the first `n` that are meant to be running.
    pub open spec fn meant_to_run(self, n: nat) -> Seq<Seq<char>>
        decreases n,
    {
        if n == 0 {
            Seq::empty()
        } else {
            let before = self.meant_to_run((n - 1) as nat);
            let s = self.services[n - 1];
            if s.child is Some && !s.user_stopped {
                before.push(s.cfg.name)
            } else {
                before
            }
        }
    }

    /// What the session file is to hold: the names of the services meant to be running, a line
    /// each; `None` when there are none.
    pub open spec fn session(self) -> Option<Seq<char>> {
        let names = self.meant_to_run(self.services.len());
        if names.len() == 0 {
            None
        } else {
            Some(split::join(names, "\n"@))
        }
    }

    /// The services that names stand for, in order, each once; names of no service are left
    /// out.
    pub open spec fn named(self, names: Seq<Seq<char>>) -> Seq<usize>
        decreases names.len(),
    {
        if names.len() == 0 {
            Seq::empty()
        } else {
            let before = self.named(names.drop_last());
            match self.find(names.last(), 0) {
                Some(i) => if before.contains(i as usize) {
                    before
                } else {
                    before.push(i as usize)
                },
                None => before,
            }
        }
    }

    /// The services of the stack in start order: those that `[stack]` names, or all in file
    /// order when it is not given.
    pub open spec fn stack_order(self) -> Seq<usize> {
        match self.stack {
            None => Seq::new(self.services.len(), |i: int| i as usize),
            Some(names) => self.named(names),
        }
    }

    /// What probes the health of a service.
    pub open spec fn probe(self, i: int) -> ProbeView {
        let s = self.services[i];
        if s.child is None || s.stop_requested is Some {
            ProbeView::Nothing
        } else {
            match s.cfg.health_url {
                Some(url) => match health::url_target(url) {
                    Some(t) => ProbeView::Http(t),
                    None => ProbeView::Unsupported,
                },
                None => match s.cfg.port {
                    Some(p) => ProbeView::Tcp(p),
                    None => ProbeView::Nothing,
                },
            }
        }
    }
}

/// The names in a saved session: its lines, without the white space at their ends, the empty
/// ones left out.
pub open spec fn session_lines(saved: Seq<char>) -> Seq<Seq<char>> {
    split::filter_map(
        split::lines(saved),
        |l: Seq<char>|
            if split::trim(l).len() == 0 {
                None
            } else {
                Some(split::trim(l))
            },
    )
}

/// The names of the services to resume: those in the saved session, none when there is no
/// session.
pub open spec fn names_to_resume(saved: Option<Seq<char>>) -> Seq<Seq<char>> {
    match saved {
        Some(s) => session_lines(s),
        None => Seq::empty(),
    }
}

// ------------------------------------------------------------------ execution

/// The configuration, or the error that the file is reported with.
pub fn parse_config(parsed: Result<Config, String>) -> (r: Result<Config, String>)
    ensures
        match parsed {
            Ok(c) => r == Ok::<Config, String>(c),
            Err(e) => r matches Err(f) && f@ == config_error_text(e@),
        },
{
    match parsed {
        Ok(c) => Ok(c),
        Err(e) => Err(config_error(e.as_str())),
    }
}

fn config_error(reason: &str) -> (r: String)
    ensures
        r@ == config_error_text(reason@),
{
    let mut out = services::CONFIG_FILE.to_owned();
    push_text(&mut out, ": ");
    push_text(&mut out, reason);
    out
}

impl Manager {
    /// Whether every service is in order.
    pub open spec fn wf(self) -> bool {
        forall|i: int| 0 <= i < self.services@.len() ==> (#[trigger] self.services@[i]).wf()
    }

    /// The manager of the configuration. Missing file = no services; a malformed file is a
    /// hard error the caller must surface.
    pub fn load(source: ConfigSource) -> (r: Result<Self, String>)
        ensures
            match source {
                ConfigSource::Missing => r matches Ok(m) && m.wf() && m@ == loaded(
                    Seq::empty(),
                    None,
                ),
                ConfigSource::Read(Ok(c)) => r matches Ok(m) && m.wf() && m@ == loaded(
                    config_views(c.services@),
                    opt_texts(c.stack),
                ),
                ConfigSource::Read(Err(e)) => r matches Err(f) && f@ == config_error_text(e@),
                ConfigSource::Unreadable(e) => r matches Err(f) && f@ == config_error_text(e@),
            },
    {
        let config = match source {
            ConfigSource::Missing => Config { services: Vec::new(), stack: None },
            ConfigSource::Read(parsed) => match parse_config(parsed) {
                Ok(c) => c,
                Err(e) => {
                    return Err(e);
                },
            },
            ConfigSource::Unreadable(e) => {
                return Err(config_error(e.as_str()));
            },
        };
        let ghost want = loaded(config_views(config.services@), opt_texts(config.stack));
        let mut services: Vec<Service> = Vec::new();
        for i in 0..config.services.len()
            invariant
                services@.len() == i,
                forall|j: int|
                    0 <= j < i ==> (#[trigger] services@[j])@ == services::fresh(
                        config.services@[j]@,
                    ) && services@[j].wf(),
        {
            services.push(Service::new(config.services[i].copy()));
        }
        let m = Manager { services, stack: config.stack, unsaved: false };
        proof {
            assert(m@.services =~= want.services);
            assert(source is Missing ==> config_views(config.services@) =~= Seq::empty());
        }
        Ok(m)
    }

    /// What is to be spawned to start a service: nothing when it already runs.
    pub fn launch(&self, i: usize) -> (r: Option<Launch>)
        requires
            i < self@.services.len(),
        ensures
            opt_launch(r) == self@.launch(i as int),
    {
        let svc = &self.services[i];
        if svc.running() {
            None
        } else {
            Some(
                Launch {
                    service: i,
                    cmd: svc.cfg.cmd.clone(),
                    cwd: copy_option(&svc.cfg.cwd),
                },
            )
        }
    }

    /// Starts a service, given how spawning its command went; see [`Manager::launch`].
    pub fn start(&mut self, i: usize, spawned: &Result<i32, String>, now: u64) -> (r: Result<
        (),
        String,
    >)
        requires
            old(self).wf(),
            i < old(self)@.services.len(),
        ensures
            final(self)@ == old(self)@.start(i as int, *spawned, now),
            err_text(r) == old(self)@.start_error(i as int, *spawned),
            final(self).wf(),
    {
        let ghost before = self@;
        if self.services[i].running() {
            return Ok(());
        }
        match spawned {
            Ok(pid) => {
                self.services[i].mark_started(*pid, now);
                self.unsaved = true;
                proof {
                    assert(self@.services =~= before.start(i as int, *spawned, now).services);
                }
                Ok(())
            },
            Err(e) => Err(e.clone()),
        }
    }

    /// The process to signal to stop a service.
    pub fn stop_target(&self, i: usize) -> (r: Option<i32>)
        requires
            i < self@.services.len(),
        ensures
            r == self@.services[i as int].child,
    {
        self.services[i].pid()
    }

    /// Stops a service, given how the signal to its process went.
    pub fn stop(&mut self, i: usize, sent: &Result<i32, String>, now: u64)
        requires
            old(self).wf(),
            i < old(self)@.services.len(),
        ensures
            final(self)@ == old(self)@.stop(i as int, *sent, now),
            final(self).wf(),
    {
        let ghost before = self@;
        self.services[i].mark_stopped(sent, now);
        self.unsaved = true;
        proof {
            assert(self@.services =~= before.stop(i as int, *sent, now).services);
        }
    }

    /// Stops a service if it runs and starts it again once the child exits; starts it if it
    /// does not run. The reply is that of the signal or of the spawn.
    pub fn restart(&mut self, i: usize, reply: &Result<i32, String>, now: u64) -> (r: Result<
        (),
        String,
    >)
        requires
            old(self).wf(),
            i < old(self)@.services.len(),
        ensures
            final(self)@ == old(self)@.restart(i as int, *reply, now),
            err_text(r) == old(self)@.start_error(i as int, *reply),
            final(self).wf(),
    {
        let ghost before = self@;
        if self.services[i].running() {
            self.services[i].restart_pending = true;
            proof {
                assert(self@.services =~= before.with(
                    i as int,
                    services::ServiceView {
                        restart_pending: true,
                        ..before.services[i as int]
                    },
                ).services);
            }
            self.stop(i, reply, now);
            Ok(())
        } else {
            self.start(i, reply, now)
        }
    }

    /// Keeps a line that a service printed; see [`services::logged`].
    pub fn push_log(&mut self, i: usize, line: String)
        requires
            old(self).wf(),
            i < old(self)@.services.len(),
        ensures
            final(self)@ == old(self)@.with(
                i as int,
                services::ServiceView {
                    logs: services::logged(old(self)@.services[i as int].logs, line@),
                    ..old(self)@.services[i as int]
                },
            ),
            final(self).wf(),
    {
        let ghost before = self@;
        let ghost text = line@;
        self.services[i].push_log(line);
        proof {
            assert(self@.services =~= before.with(
                i as int,
                services::ServiceView {
                    logs: services::logged(before.services[i as int].logs, text),
                    ..before.services[i as int]
                },
            ).services);
        }
    }

    /// What probes the health of a service; see [`ManagerView::probe`].
    pub fn probe(&self, i: usize) -> (r: Probe)
        requires
            i < self@.services.len(),
        ensures
            r@ == self@.probe(i as int),
    {
        let svc = &self.services[i];
        if !svc.running() || svc.stop_requested.is_some() {
            return Probe::Nothing;
        }
        match &svc.cfg.health_url {
            Some(url) => match parse_health_url(url.as_str()) {
                Some(t) => Probe::Http(t),
                None => Probe::Unsupported,
            },
            None => match svc.cfg.port {
                Some(p) => Probe::Tcp(p),
                None => Probe::Nothing,
            },
        }
    }

    /// Drives lifecycles, given what was seen of each child: reaps exits, escalates stops,
    /// takes in health, fires backoff restarts. Gives back the services whose child is to be
    /// killed and those that are to be started.
    pub fn tick(&mut self, waits: &Vec<Wait>, now: u64) -> (r: (Vec<usize>, Vec<usize>))
        requires
            old(self).wf(),
            waits@.len() == old(self)@.services.len(),
            forall|i: int|
                0 <= i < waits@.len() ==> services::restart_fits(
                    #[trigger] old(self)@.services[i],
                    waits@[i],
                    now,
                ),
        ensures
            final(self)@ == old(self)@.tick(waits@, now),
            r.0@ == old(self)@.kills(waits@, now, waits@.len()),
            r.1@ == old(self)@.starts(waits@, now, waits@.len()),
            final(self).wf(),
    {
        let ghost before = self@;
        let mut kills: Vec<usize> = Vec::new();
        let mut starts: Vec<usize> = Vec::new();
        let n = self.services.len();
        for i in 0..n
            invariant
                self.wf(),
                n == waits@.len(),
                n == self.services@.len(),
                n == before.services.len(),
                forall|i: int|
                    0 <= i < n ==> services::restart_fits(
                        #[trigger] before.services[i],
                        waits@[i],
                        now,
                    ),
                self.stack == old(self).stack,
                self.unsaved == old(self).unsaved,
                forall|j: int|
                    0 <= j < i ==> (#[trigger] self.services@[j])@ == services::ticked(
                        before.services[j],
                        waits@[j],
                        now,
                    ).0,
                forall|j: int|
                    i <= j < n ==> (#[trigger] self.services@[j])@ == before.services[j],
                kills@ == before.kills(waits@, now, i as nat),
                starts@ == before.starts(waits@, now, i as nat),
        {
            let (kill, start) = self.services[i].tick(&waits[i], now);
            if kill {
                kills.push(i);
            }
            if start {
                starts.push(i);
            }
        }
        proof {
            assert(self@.services =~= before.tick(waits@, now).services);
        }
        (kills, starts)
    }

    /// Starts a service that a tick said to start, given how spawning its command went.
    pub fn tick_start(&mut self, i: usize, spawned: &Result<i32, String>, now: u64)
        requires
            old(self).wf(),
            i < old(self)@.services.len(),
        ensures
            final(self)@ == old(self)@.tick_start(i as int, *spawned, now),
            final(self).wf(),
    {
        let ghost before = self@;
        if let Err(e) = self.start(i, spawned, now) {
            let mut line = "[dev-panel] restart failed: ".to_owned();
            push_text(&mut line, e.as_str());
            self.services[i].note(line);
            self.services[i].status = services::Status::Crashed;
            proof {
                assert(self@.services =~= before.tick_start(i as int, *spawned, now).services);
            }
        }
    }

    /// What to do with the session file, when what runs has changed since it was last written.
    pub fn save_session(&mut self) -> (r: Option<SessionWrite>)
        ensures
            final(self)@ == (ManagerView { unsaved: false, ..old(self)@ }),
            old(self).wf() ==> final(self).wf(),
            old(self)@.unsaved <==> r is Some,
            r matches Some(SessionWrite::Remove) ==> old(self)@.session() is None,
            r matches Some(SessionWrite::Write(s)) ==> old(self)@.session() == Some(s@),
    {
        if !self.unsaved {
            return None;
        }
        self.unsaved = false;
        let mut names: Vec<String> = Vec::new();
        let n = self.services.len();
        let ghost m = old(self)@;
        assert(text::texts(names@) =~= Seq::<Seq<char>>::empty());
        for i in 0..n
            invariant
                n == self.services@.len(),
                m.services == service_views(self.services@),
                text::texts(names@) == m.meant_to_run(i as nat),
        {
            let svc = &self.services[i];
            let ghost earlier = text::texts(names@);
            if svc.running() && !svc.user_stopped {
                names.push(svc.cfg.name.clone());
                assert(text::texts(names@) =~= earlier.push(svc.cfg.name@));
            }
        }
        if names.len() == 0 {
            Some(SessionWrite::Remove)
        } else {
            Some(SessionWrite::Write(join_strings(&names, "\n")))
        }
    }

    fn find(&self, name: &str) -> (r: Option<usize>)
        ensures
            match r {
                Some(i) => self@.find(name@, 0) == Some(i as int) && i < self@.services.len(),
                None => self@.find(name@, 0) is None,
            },
    {
        let wanted = name.to_owned();
        let n = self.services.len();
        for i in 0..n
            invariant
                n == self.services@.len(),
                wanted@ == name@,
                self@.find(name@, 0) == self@.find(name@, i as int),
        {
            if self.services[i].cfg.name == wanted {
                return Some(i);
            }
        }
        None
    }

    /// What is to be spawned to resume a service of a saved session: nothing when there is no
    /// such service or it already runs.
    pub fn resume_launch(&self, name: &str) -> (r: Option<Launch>)
        ensures
            opt_launch(r) == (match self@.find(name@, 0) {
                Some(i) => self@.launch(i),
                None => None,
            }),
    {
        match self.find(name) {
            Some(i) => self.launch(i),
            None => None,
        }
    }

    /// Starts a service of a saved session, given how spawning its command went, and gives
    /// back the message about it.
    pub fn resume_session(&mut self, name: &str, spawned: &Result<i32, String>, now: u64) -> (r:
        String)
        requires
            old(self).wf(),
        ensures
            final(self).wf(),
            final(self)@ == old(self)@.resume(name@, *spawned, now),
            r@ == old(self)@.resume_text(name@, *spawned),
    {
        match self.find(name) {
            Some(i) => match self.start(i, spawned, now) {
                Ok(_) => {
                    let mut out = "resumed ".to_owned();
                    push_text(&mut out, name);
                    out
                },
                Err(e) => {
                    let mut out = "resume ".to_owned();
                    push_text(&mut out, name);
                    push_text(&mut out, " failed: ");
                    push_text(&mut out, e.as_str());
                    out
                },
            },
            None => {
                let mut out = "session had unknown service ".to_owned();
                push_text(&mut out, name);
                out
            },
        }
    }

    /// The services of the stack in start order; see [`ManagerView::stack_order`].
    pub fn stack_order(&self) -> (r: Vec<usize>)
        ensures
            r@ == self@.stack_order(),
            forall|k: int| 0 <= k < r@.len() ==> (#[trigger] r@[k]) < self@.services.len(),
            r@.no_duplicates(),
    {
        let mut out: Vec<usize> = Vec::new();
        match &self.stack {
            None => {
                for i in 0..self.services.len()
                    invariant
                        out@ == Seq::new(i as nat, |k: int| k as usize),
                {
                    out.push(i);
                }
            },
            Some(names) => {
                let ghost all = text::texts(names@);
                assert(all.take(0) =~= Seq::<Seq<char>>::empty());
                for k in 0..names.len()
                    invariant
                        all == text::texts(names@),
                        out@ == self@.named(all.take(k as int)),
                        out@.no_duplicates(),
                        forall|j: int|
                            0 <= j < out@.len() ==> (#[trigger] out@[j]) < self@.services.len(),
                {
                    proof {
                        assert(all.take(k + 1).drop_last() =~= all.take(k as int));
                        assert(all.take(k + 1).last() == names@[k as int]@);
                    }
                    if let Some(i) = self.find(names[k].as_str()) {
                        if !holds(&out, i) {
                            out.push(i);
                        }
                    }
                }
                assert(all.take(names@.len() as int) =~= all);
            },
        }
        out
    }

    /// Takes a new service in, behind the others.
    pub fn adopt(&mut self, cfg: ServiceConfig)
        requires
            old(self).wf(),
        ensures
            final(self)@ == (ManagerView {
                services: old(self)@.services.push(services::fresh(cfg@)),
                ..old(self)@
            }),
            final(self).wf(),
    {
        let ghost before = self@;
        let svc = Service::new(cfg);
        let ghost sv = svc@;
        self.services.push(svc);
        assert(self@.services =~= before.services.push(sv));
    }
}

fn holds(v: &Vec<usize>, x: usize) -> (r: bool)
    ensures
        r == v@.contains(x),
{
    for i in 0..v.len()
        invariant
            forall|j: int| 0 <= j < i ==> v@[j] != x,
    {
        if v[i] == x {
            return true;
        }
    }
    false
}

/// The names of the services to resume, given what the session file holds when there is one;
/// see [`names_to_resume`].
pub fn resume_names(saved: &Option<String>) -> (r: Vec<String>)
    ensures
        text::texts(r@) == names_to_resume(text::opt_text(*saved)),
{
    match saved {
        Some(s) => session_names(s.as_str()),
        None => {
            let r: Vec<String> = Vec::new();
            assert(text::texts(r@) =~= Seq::<Seq<char>>::empty());
            r
        },
    }
}

/// The names in a saved session; see [`session_lines`].
pub fn session_names(saved: &str) -> (r: Vec<String>)
    ensures
        text::texts(r@) == session_lines(saved@),
{
    let chars = chars_of(saved);
    let lines = split_lines(chars.as_slice());
    let ghost all = text::views(lines@);
    let ghost f = |l: Seq<char>|
        if split::trim(l).len() == 0 {
            None
        } else {
            Some(split::trim(l))
        };
    let mut out: Vec<String> = Vec::new();
    assert(all.take(0) =~= Seq::<Seq<char>>::empty());
    assert(text::texts(out@) =~= Seq::<Seq<char>>::empty());
    for i in 0..lines.len()
        invariant
            all == text::views(lines@),
            f == (|l: Seq<char>|
                if split::trim(l).len() == 0 {
                    None
                } else {
                    Some(split::trim(l))
                }),
            text::texts(out@) == split::filter_map(all.take(i as int), f),
    {
        proof {
            assert(all.take(i + 1).drop_last() =~= all.take(i as int));
            assert(all.take(i + 1).last() == lines@[i as int]@);
        }
        let name = trimmed(lines[i].as_slice());
        let ghost earlier = text::texts(out@);
        if name.len() > 0 {
            out.push(string_of(name.as_slice()));
            assert(text::texts(out@) =~= earlier.push(name@));
        }
    }
    assert(all.take(lines@.len() as int) =~= all);
    out
}

} // verus!
