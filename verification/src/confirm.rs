//! The confirmation of a pending action: the outside calls that it needs, and what becomes of
//! the panel once they were made.
use vstd::prelude::*;
use crate::adopt;
use crate::adopt::service_block;
use crate::app;
use crate::app::{App, Pending, Respawn, Revival, Strategy};
use crate::manager;
use crate::manager::Launch;
use crate::rows;
use crate::services;
use crate::services::ServiceConfig;
use crate::text;
use crate::text::{push_signed, push_text};

verus! {

/// A call that a confirmed action needs.
pub enum Call {
    Nothing,
    /// Ask a process to exit.
    Terminate(i32),
    /// Run the command of a service.
    Spawn(Launch),
    /// Have systemd restart a unit.
    Systemctl(String),
    /// Have launchd restart an agent.
    Launchctl(String),
    /// Stop a container, in the background.
    DockerStop { id: String, name: String },
    /// Restart a container, in the background.
    DockerRestart { id: String, name: String },
    /// Append a text to the configuration file.
    AppendConfig(String),
}

/// What a [`Call`] says.
pub ghost enum CallView {
    Nothing,
    Terminate(i32),
    Spawn(manager::LaunchView),
    Systemctl(Seq<char>),
    Launchctl(Seq<char>),
    DockerStop { id: Seq<char>, name: Seq<char> },
    DockerRestart { id: Seq<char>, name: Seq<char> },
    AppendConfig(Seq<char>),
}

impl View for Call {
    type V = CallView;

    open spec fn view(&self) -> CallView {
        match *self {
            Call::Nothing => CallView::Nothing,
            Call::Terminate(pid) => CallView::Terminate(pid),
            Call::Spawn(l) => CallView::Spawn(l@),
            Call::Systemctl(unit) => CallView::Systemctl(unit@),
            Call::Launchctl(label) => CallView::Launchctl(label@),
            Call::DockerStop { id, name } => CallView::DockerStop { id: id@, name: name@ },
            Call::DockerRestart { id, name } => CallView::DockerRestart { id: id@, name: name@ },
            Call::AppendConfig(t) => CallView::AppendConfig(t@),
        }
    }
}

/// What a list of calls says.
pub open spec fn call_views(v: Seq<Call>) -> Seq<CallView> {
    Seq::new(v.len(), |i: int| v[i]@)
}

// ------------------------------------------------------------------ meaning

/// The call that stops a service.
pub open spec fn stop_call(s: services::ServiceView) -> CallView {
    match s.child {
        Some(pid) => CallView::Terminate(pid),
        None => CallView::Nothing,
    }
}

/// The call that restarts a service.
pub open spec fn restart_call(m: manager::ManagerView, i: int) -> CallView {
    match m.launch(i) {
        Some(l) => CallView::Spawn(l),
        None => stop_call(m.services[i]),
    }
}

/// The calls that the pending action needs, in the order in which they are made. A stack is
/// stopped from its end and restarted from its beginning.
pub open spec fn calls_of(a: app::AppView) -> Seq<CallView> {
    let order = a.manager.stack_order();
    match a.pending {
        None => Seq::empty(),
        Some(p) => match p {
            app::PendingView::Kill { pid, .. } => seq![CallView::Terminate(pid)],
            app::PendingView::Restart { pid, strategy, .. } => seq![
                match strategy {
                    app::StrategyView::Systemd(unit) => CallView::Systemctl(unit),
                    app::StrategyView::Launchd(label) => CallView::Launchctl(label),
                    _ => CallView::Terminate(pid),
                },
            ],
            app::PendingView::ServiceStop(i) => seq![stop_call(a.manager.services[i as int])],
            app::PendingView::ServiceRestart(i) => seq![
                restart_call(a.manager, i as int),
            ],
            app::PendingView::ContainerStop { id, name } => seq![CallView::DockerStop { id, name }],
            app::PendingView::ContainerRestart { id, name } => seq![
                CallView::DockerRestart { id, name },
            ],
            app::PendingView::StackStop => Seq::new(
                order.len(),
                |k: int| stop_call(a.manager.services[order[order.len() - 1 - k] as int]),
            ),
            app::PendingView::StackRestart => Seq::new(
                order.len(),
                |k: int| restart_call(a.manager, order[k] as int),
            ),
            app::PendingView::Adopt(cfg) => seq![
                CallView::AppendConfig(adopt::service_block_text(cfg)),
            ],
        },
    }
}

/// The manager after services were to be stopped one after the other.
pub open spec fn stop_each(
    m: manager::ManagerView,
    order: Seq<usize>,
    replies: Seq<Result<i32, String>>,
    now: u64,
) -> manager::ManagerView
    decreases order.len(),
{
    if order.len() == 0 {
        m
    } else {
        stop_each(m, order.drop_last(), replies, now).stop(
            order.last() as int,
            replies[order.len() - 1],
            now,
        )
    }
}

/// The manager after services were to be restarted one after the other.
pub open spec fn restart_each(
    m: manager::ManagerView,
    order: Seq<usize>,
    replies: Seq<Result<i32, String>>,
    now: u64,
) -> manager::ManagerView
    decreases order.len(),
{
    if order.len() == 0 {
        m
    } else {
        restart_each(m, order.drop_last(), replies, now).restart(
            order.last() as int,
            replies[order.len() - 1],
            now,
        )
    }
}

/// What is said of the services that could not be restarted.
pub open spec fn restart_failures(
    m: manager::ManagerView,
    order: Seq<usize>,
    replies: Seq<Result<i32, String>>,
    now: u64,
) -> Seq<Seq<char>>
    decreases order.len(),
{
    if order.len() == 0 {
        Seq::empty()
    } else {
        let earlier = restart_failures(m, order.drop_last(), replies, now);
        let before = restart_each(m, order.drop_last(), replies, now);
        let i = order.last() as int;
        match before.start_error(i, replies[order.len() - 1]) {
            None => earlier,
            Some(e) => earlier.push("restart "@ + before.services[i].cfg.name + " failed: "@ + e),
        }
    }
}

/// What is run once a process that is restarted has exited.
pub open spec fn revival_of(
    strategy: app::StrategyView,
    cmd: Seq<Seq<char>>,
    cwd: Option<Seq<char>>,
) -> app::RevivalView {
    match strategy {
        app::StrategyView::Configured(i) => app::RevivalView::Service(i),
        _ => app::RevivalView::Command { cmd, cwd, shell: strategy is Shell },
    }
}

/// The message about a signal that could not be sent.
pub open spec fn sigterm_failed(pid: i32, e: Seq<char>) -> Seq<char> {
    "SIGTERM "@ + text::signed_decimal(pid as int) + " failed: "@ + e
}

/// The panel after a process was to be restarted.
pub open spec fn process_restarted(
    a: app::AppView,
    pid: i32,
    name: Seq<char>,
    cmd: Seq<Seq<char>>,
    cwd: Option<Seq<char>>,
    strategy: app::StrategyView,
    reply: Result<i32, String>,
    now: u64,
) -> app::AppView {
    match strategy {
        app::StrategyView::Systemd(unit) => a.say(
            match reply {
                Ok(_) => "systemctl restarted "@ + unit,
                Err(e) => "systemctl restart "@ + unit + " failed: "@ + e@,
            },
        ),
        app::StrategyView::Launchd(label) => a.say(
            match reply {
                Ok(_) => "launchctl restarted "@ + label,
                Err(e) => "launchctl kickstart "@ + label + " failed: "@ + e@,
            },
        ),
        _ => match reply {
            Ok(_) => app::AppView {
                term_sent: a.term_sent.push((pid, now)),
                respawns: a.respawns.push(
                    app::RespawnView {
                        pid,
                        revival: revival_of(strategy, cmd, cwd),
                        since: now,
                    },
                ),
                ..a
            }.say("restarting "@ + name + ": SIGTERM → "@ + text::signed_decimal(pid as int)),
            Err(e) => a.say(sigterm_failed(pid, e@)),
        },
    }
}

/// The panel after a process was to be killed.
pub open spec fn killed(
    a: app::AppView,
    pid: i32,
    name: Seq<char>,
    reply: Result<i32, String>,
    now: u64,
) -> app::AppView {
    match reply {
        Ok(_) => app::AppView { term_sent: a.term_sent.push((pid, now)), ..a }.say(
            "SIGTERM → "@ + text::signed_decimal(pid as int) + " ("@ + name + ")"@,
        ),
        Err(e) => a.say(sigterm_failed(pid, e@)),
    }
}

/// The panel after a service was to be stopped.
pub open spec fn service_stopped(
    a: app::AppView,
    i: int,
    reply: Result<i32, String>,
    now: u64,
) -> app::AppView {
    app::AppView { manager: a.manager.stop(i, reply, now), ..a }.say(
        "stopping "@ + a.manager.services[i].cfg.name,
    )
}

/// The panel after a service was to be restarted.
pub open spec fn service_restarted(
    a: app::AppView,
    i: int,
    reply: Result<i32, String>,
    now: u64,
) -> app::AppView {
    app::AppView { manager: a.manager.restart(i, reply, now), ..a }.say(
        match a.manager.start_error(i, reply) {
            None => "restarting "@ + a.manager.services[i].cfg.name,
            Some(e) => "restart failed: "@ + e,
        },
    )
}

/// The panel after a process was to be adopted, given whether its block could be appended to
/// the configuration file.
pub open spec fn adopted(
    a: app::AppView,
    cfg: services::ServiceConfigView,
    reply: Result<i32, String>,
) -> app::AppView {
    match reply {
        Ok(_) => rows::built(
            app::AppView {
                manager: manager::ManagerView {
                    services: a.manager.services.push(services::fresh(cfg)),
                    ..a.manager
                },
                ..a
            }.say("adopted "@ + cfg.name + " into "@ + services::CONFIG_FILE@),
        ),
        Err(e) => a.say("adopt failed: "@ + e@),
    }
}

/// The panel after the pending action was confirmed, given the replies to the calls that it
/// needed.
pub open spec fn confirmed(
    a: app::AppView,
    replies: Seq<Result<i32, String>>,
    now: u64,
) -> app::AppView {
    let b = app::AppView { pending: None, ..a };
    let order = a.manager.stack_order();
    match a.pending {
        None => a,
        Some(p) => match p {
            app::PendingView::Kill { pid, name } => killed(b, pid, name, replies[0], now),
            app::PendingView::Restart { pid, name, cmd, cwd, strategy, .. } => process_restarted(
                b,
                pid,
                name,
                cmd,
                cwd,
                strategy,
                replies[0],
                now,
            ),
            app::PendingView::ServiceStop(i) => service_stopped(b, i as int, replies[0], now),
            app::PendingView::ServiceRestart(i) => service_restarted(
                b,
                i as int,
                replies[0],
                now,
            ),
            app::PendingView::ContainerStop { name, .. } => b.say(
                "stopping container "@ + name + "…"@,
            ),
            app::PendingView::ContainerRestart { name, .. } => b.say(
                "restarting container "@ + name + "…"@,
            ),
            app::PendingView::StackStop => app::AppView {
                manager: stop_each(a.manager, order.reverse(), replies, now),
                ..b
            }.say("stopping the stack"@),
            app::PendingView::StackRestart => app::AppView {
                manager: restart_each(a.manager, order, replies, now),
                ..b
            }.say("restarting the stack"@).say_all(
                restart_failures(a.manager, order, replies, now),
            ),
            app::PendingView::Adopt(cfg) => adopted(b, cfg, replies[0]),
        },
    }
}

/// The message once a container was to be stopped.
pub open spec fn docker_stop_text(name: Seq<char>, done: Result<(), String>) -> Seq<char> {
    match done {
        Ok(_) => "stopped container "@ + name,
        Err(e) => "docker stop "@ + name + " failed: "@ + e@,
    }
}

/// The message once a container was to be restarted.
pub open spec fn docker_restart_text(name: Seq<char>, done: Result<(), String>) -> Seq<char> {
    match done {
        Ok(_) => "restarted container "@ + name,
        Err(e) => "docker restart "@ + name + " failed: "@ + e@,
    }
}

// ------------------------------------------------------------------ execution

/// The message once a container was to be stopped.
pub fn docker_stop_message(name: &str, done: &Result<(), String>) -> (r: String)
    ensures
        r@ == docker_stop_text(name@, *done),
{
    match done {
        Ok(_) => {
            let mut m = "stopped container ".to_owned();
            push_text(&mut m, name);
            m
        },
        Err(e) => {
            let mut m = "docker stop ".to_owned();
            push_text(&mut m, name);
            push_text(&mut m, " failed: ");
            push_text(&mut m, e.as_str());
            m
        },
    }
}

/// The message once a container was to be restarted.
pub fn docker_restart_message(name: &str, done: &Result<(), String>) -> (r: String)
    ensures
        r@ == docker_restart_text(name@, *done),
{
    match done {
        Ok(_) => {
            let mut m = "restarted container ".to_owned();
            push_text(&mut m, name);
            m
        },
        Err(e) => {
            let mut m = "docker restart ".to_owned();
            push_text(&mut m, name);
            push_text(&mut m, " failed: ");
            push_text(&mut m, e.as_str());
            m
        },
    }
}

fn sigterm_failed_message(pid: i32, e: &str) -> (r: String)
    ensures
        r@ == sigterm_failed(pid, e@),
{
    let mut m = "SIGTERM ".to_owned();
    push_signed(&mut m, pid);
    push_text(&mut m, " failed: ");
    push_text(&mut m, e);
    m
}

fn about(before: &str, name: &str, after: &str) -> (r: String)
    ensures
        r@ == before@ + name@ + after@,
{
    let mut m = before.to_owned();
    push_text(&mut m, name);
    push_text(&mut m, after);
    m
}

impl App {
    fn stop_call_for(&self, i: usize) -> (r: Call)
        requires
            i < self@.manager.services.len(),
        ensures
            r@ == stop_call(self@.manager.services[i as int]),
    {
        match self.manager.stop_target(i) {
            Some(pid) => Call::Terminate(pid),
            None => Call::Nothing,
        }
    }

    fn restart_call_for(&self, i: usize) -> (r: Call)
        requires
            i < self@.manager.services.len(),
        ensures
            r@ == restart_call(self@.manager, i as int),
    {
        match self.manager.launch(i) {
            Some(l) => Call::Spawn(l),
            None => self.stop_call_for(i),
        }
    }

    /// The calls that the pending action needs; see [`calls_of`].
    pub fn pending_calls(&self) -> (r: Vec<Call>)
        requires
            self.wf(),
        ensures
            call_views(r@) == calls_of(self@),
    {
        let mut out: Vec<Call> = Vec::new();
        if let Some(p) = &self.pending {
            match p {
                Pending::Kill { pid, .. } => {
                    out.push(Call::Terminate(*pid));
                },
                Pending::Restart { pid, strategy, .. } => {
                    out.push(
                        match strategy {
                            Strategy::Systemd(unit) => Call::Systemctl(unit.clone()),
                            Strategy::Launchd(label) => Call::Launchctl(label.clone()),
                            _ => Call::Terminate(*pid),
                        },
                    );
                },
                Pending::ServiceStop(i) => {
                    out.push(self.stop_call_for(*i));
                },
                Pending::ServiceRestart(i) => {
                    out.push(self.restart_call_for(*i));
                },
                Pending::ContainerStop { id, name } => {
                    out.push(Call::DockerStop { id: id.clone(), name: name.clone() });
                },
                Pending::ContainerRestart { id, name } => {
                    out.push(Call::DockerRestart { id: id.clone(), name: name.clone() });
                },
                Pending::StackStop => {
                    let order = self.manager.stack_order();
                    let n = order.len();
                    for k in 0..n
                        invariant
                            n == order@.len(),
                            out@.len() == k,
                            forall|j: int|
                                0 <= j < n ==> (#[trigger] order@[j]) < self@.manager.services.len(),
                            forall|j: int|
                                0 <= j < k ==> (#[trigger] out@[j])@ == stop_call(
                                    self@.manager.services[order@[n - 1 - j] as int],
                                ),
                    {
                        out.push(self.stop_call_for(order[n - 1 - k]));
                    }
                },
                Pending::StackRestart => {
                    let order = self.manager.stack_order();
                    let n = order.len();
                    for k in 0..n
                        invariant
                            n == order@.len(),
                            out@.len() == k,
                            forall|j: int|
                                0 <= j < n ==> (#[trigger] order@[j]) < self@.manager.services.len(),
                            forall|j: int|
                                0 <= j < k ==> (#[trigger] out@[j])@ == restart_call(
                                    self@.manager,
                                    order@[j] as int,
                                ),
                    {
                        out.push(self.restart_call_for(order[k]));
                    }
                },
                Pending::Adopt(cfg) => {
                    out.push(Call::AppendConfig(service_block(cfg)));
                },
            }
        }
        assert(call_views(out@) =~= calls_of(self@));
        out
    }

    fn stop_stack(&mut self, replies: &Vec<Result<i32, String>>, now: u64)
        requires
            old(self).wf(),
            replies@.len() == old(self)@.manager.stack_order().len(),
        ensures
            final(self)@ == (app::AppView {
                manager: stop_each(
                    old(self)@.manager,
                    old(self)@.manager.stack_order().reverse(),
                    replies@,
                    now,
                ),
                ..old(self)@
            }),
            final(self).wf(),
    {
        let ghost a = self@;
        let order = self.manager.stack_order();
        let ghost back = order@.reverse();
        let n = order.len();
        assert(back.take(0) =~= Seq::<usize>::empty());
        for k in 0..n
            invariant
                n == order@.len(),
                n == replies@.len(),
                back == order@.reverse(),
                forall|j: int|
                    0 <= j < n ==> (#[trigger] order@[j]) < self@.manager.services.len(),
                self@ == (app::AppView {
                    manager: stop_each(a.manager, back.take(k as int), replies@, now),
                    ..a
                }),
                self.wf(),
        {
            proof {
                assert(back.take(k + 1).drop_last() =~= back.take(k as int));
                assert(back.take(k + 1).last() == order@[n - 1 - k]);
            }
            let ghost earlier = self@;
            self.manager.stop(order[n - 1 - k], &replies[k], now);
            proof {
                app::more_services_keep_wf(earlier, self@);
            }
        }
        assert(back.take(n as int) =~= back);
    }

    fn restart_stack(&mut self, replies: &Vec<Result<i32, String>>, now: u64) -> (r: Vec<String>)
        requires
            old(self).wf(),
            replies@.len() == old(self)@.manager.stack_order().len(),
        ensures
            final(self)@ == (app::AppView {
                manager: restart_each(
                    old(self)@.manager,
                    old(self)@.manager.stack_order(),
                    replies@,
                    now,
                ),
                ..old(self)@
            }),
            text::texts(r@) == restart_failures(
                old(self)@.manager,
                old(self)@.manager.stack_order(),
                replies@,
                now,
            ),
            final(self).wf(),
    {
        let ghost a = self@;
        let mut failures: Vec<String> = Vec::new();
        let order = self.manager.stack_order();
        let n = order.len();
        assert(order@.take(0) =~= Seq::<usize>::empty());
        assert(text::texts(failures@) =~= Seq::<Seq<char>>::empty());
        for k in 0..n
            invariant
                n == order@.len(),
                n == replies@.len(),
                forall|j: int|
                    0 <= j < n ==> (#[trigger] order@[j]) < self@.manager.services.len(),
                self@ == (app::AppView {
                    manager: restart_each(a.manager, order@.take(k as int), replies@, now),
                    ..a
                }),
                text::texts(failures@) == restart_failures(
                    a.manager,
                    order@.take(k as int),
                    replies@,
                    now,
                ),
                self.wf(),
        {
            let ghost before = self@;
            let ghost earlier = text::texts(failures@);
            proof {
                assert(order@.take(k + 1).drop_last() =~= order@.take(k as int));
                assert(order@.take(k + 1).last() == order@[k as int]);
            }
            let i = order[k];
            let name = self.manager.services[i].cfg.name.clone();
            if let Err(e) = self.manager.restart(i, &replies[k], now) {
                let mut m = about("restart ", name.as_str(), " failed: ");
                push_text(&mut m, e.as_str());
                let ghost mv = m@;
                failures.push(m);
                assert(text::texts(failures@) =~= earlier.push(mv));
            }
            proof {
                app::more_services_keep_wf(before, self@);
            }
        }
        assert(order@.take(n as int) =~= order@);
        failures
    }

    /// Shows messages one after the other.
    pub fn say_each(&mut self, messages: &Vec<String>)
        requires
            old(self).wf(),
        ensures
            final(self)@ == old(self)@.say_all(text::texts(messages@)),
            final(self).wf(),
    {
        let ghost a = self@;
        let ghost all = text::texts(messages@);
        let n = messages.len();
        assert(all.take(0) =~= Seq::<Seq<char>>::empty());
        for k in 0..n
            invariant
                n == messages@.len(),
                all == text::texts(messages@),
                self@ == a.say_all(all.take(k as int)),
                self.wf(),
        {
            proof {
                assert(all.take(k + 1).drop_last() =~= all.take(k as int));
                assert(all.take(k + 1).last() == messages@[k as int]@);
            }
            self.say(messages[k].clone());
        }
        assert(all.take(n as int) =~= all);
    }

    fn restart_process(
        &mut self,
        pid: i32,
        name: String,
        cmd: Vec<String>,
        cwd: Option<String>,
        strategy: Strategy,
        reply: &Result<i32, String>,
        now: u64,
    )
        requires
            old(self).wf(),
            app::revival_wf(
                revival_of(strategy@, text::texts(cmd@), text::opt_text(cwd)),
                old(self)@.manager.services.len(),
            ) || strategy is Systemd || strategy is Launchd,
        ensures
            final(self)@ == process_restarted(
                old(self)@,
                pid,
                name@,
                text::texts(cmd@),
                text::opt_text(cwd),
                strategy@,
                *reply,
                now,
            ),
            final(self).wf(),
    {
        match strategy {
            Strategy::Systemd(unit) => match reply {
                Ok(_) => {
                    let mut m = "systemctl restarted ".to_owned();
                    push_text(&mut m, unit.as_str());
                    self.say(m);
                },
                Err(e) => {
                    let mut m = about("systemctl restart ", unit.as_str(), " failed: ");
                    push_text(&mut m, e.as_str());
                    self.say(m);
                },
            },
            Strategy::Launchd(label) => match reply {
                Ok(_) => {
                    let mut m = "launchctl restarted ".to_owned();
                    push_text(&mut m, label.as_str());
                    self.say(m);
                },
                Err(e) => {
                    let mut m = about("launchctl kickstart ", label.as_str(), " failed: ");
                    push_text(&mut m, e.as_str());
                    self.say(m);
                },
            },
            _ => match reply {
                Ok(_) => {
                    let ghost before = self@.respawns;
                    self.term_sent.push((pid, now));
                    let revival = match strategy {
                        Strategy::Configured(i) => Revival::Service(i),
                        Strategy::Shell => Revival::Command { cmd, cwd, shell: true },
                        _ => Revival::Command { cmd, cwd, shell: false },
                    };
                    let r = Respawn { pid, revival, since: now };
                    let ghost rv = r@;
                    self.respawns.push(r);
                    assert(self@.respawns =~= before.push(rv));
                    let mut m = about("restarting ", name.as_str(), ": SIGTERM → ");
                    push_signed(&mut m, pid);
                    self.say(m);
                },
                Err(e) => {
                    self.say(sigterm_failed_message(pid, e.as_str()));
                },
            },
        }
    }

    fn confirm_kill(&mut self, pid: i32, name: String, reply: &Result<i32, String>, now: u64)
        requires
            old(self).wf(),
        ensures
            final(self)@ == killed(old(self)@, pid, name@, *reply, now),
            final(self).wf(),
    {
        match reply {
            Ok(_) => {
                self.term_sent.push((pid, now));
                let mut m = "SIGTERM → ".to_owned();
                push_signed(&mut m, pid);
                push_text(&mut m, " (");
                push_text(&mut m, name.as_str());
                push_text(&mut m, ")");
                self.say(m);
            },
            Err(e) => {
                self.say(sigterm_failed_message(pid, e.as_str()));
            },
        }
    }

    fn confirm_service_stop(&mut self, i: usize, reply: &Result<i32, String>, now: u64)
        requires
            old(self).wf(),
            i < old(self)@.manager.services.len(),
        ensures
            final(self)@ == service_stopped(old(self)@, i as int, *reply, now),
            final(self).wf(),
    {
        let ghost before = self@;
        let name = self.manager.services[i].cfg.name.clone();
        self.manager.stop(i, reply, now);
        proof {
            app::more_services_keep_wf(before, self@);
        }
        let mut m = "stopping ".to_owned();
        push_text(&mut m, name.as_str());
        self.say(m);
    }

    fn confirm_service_restart(&mut self, i: usize, reply: &Result<i32, String>, now: u64)
        requires
            old(self).wf(),
            i < old(self)@.manager.services.len(),
        ensures
            final(self)@ == service_restarted(old(self)@, i as int, *reply, now),
            final(self).wf(),
    {
        let ghost before = self@;
        let name = self.manager.services[i].cfg.name.clone();
        let done = self.manager.restart(i, reply, now);
        proof {
            app::more_services_keep_wf(before, self@);
        }
        let m = match done {
            Ok(_) => {
                let mut m = "restarting ".to_owned();
                push_text(&mut m, name.as_str());
                m
            },
            Err(e) => {
                let mut m = "restart failed: ".to_owned();
                push_text(&mut m, e.as_str());
                m
            },
        };
        self.say(m);
    }

    fn confirm_adopt(&mut self, cfg: ServiceConfig, reply: &Result<i32, String>)
        requires
            old(self).wf(),
        ensures
            final(self)@ == adopted(old(self)@, cfg@, *reply),
            final(self).wf(),
    {
        match reply {
            Ok(_) => {
                let ghost before = self@;
                let mut m = about("adopted ", cfg.name.as_str(), " into ");
                push_text(&mut m, services::CONFIG_FILE);
                self.manager.adopt(cfg);
                proof {
                    app::more_services_keep_wf(before, self@);
                }
                self.say(m);
                self.build_rows();
            },
            Err(e) => {
                let mut m = "adopt failed: ".to_owned();
                push_text(&mut m, e.as_str());
                self.say(m);
            },
        }
    }

    /// Carries the pending action out, given the replies to the calls that it needed; see
    /// [`App::pending_calls`] and [`confirmed`].
    #[verifier::rlimit(60)]
    pub fn confirm_pending(&mut self, replies: &Vec<Result<i32, String>>, now: u64)
        requires
            old(self).wf(),
            replies@.len() == calls_of(old(self)@).len(),
        ensures
            final(self)@ == confirmed(old(self)@, replies@, now),
            final(self).wf(),
    {
        let pending = match self.pending.take() {
            Some(p) => p,
            None => {
                return;
            },
        };
        let ghost a = old(self)@;
        assert(self@ == (app::AppView { pending: None, ..a }));
        match pending {
            Pending::Kill { pid, name } => {
                self.confirm_kill(pid, name, &replies[0], now);
            },
            Pending::Restart { pid, name, cmd, cwd, port: _, strategy } => {
                self.restart_process(pid, name, cmd, cwd, strategy, &replies[0], now);
            },
            Pending::ServiceStop(i) => {
                self.confirm_service_stop(i, &replies[0], now);
            },
            Pending::ServiceRestart(i) => {
                self.confirm_service_restart(i, &replies[0], now);
            },
            Pending::ContainerStop { id: _, name } => {
                self.say(about("stopping container ", name.as_str(), "…"));
            },
            Pending::ContainerRestart { id: _, name } => {
                self.say(about("restarting container ", name.as_str(), "…"));
            },
            Pending::StackStop => {
                self.stop_stack(replies, now);
                self.say("stopping the stack".to_owned());
            },
            Pending::StackRestart => {
                let failures = self.restart_stack(replies, now);
                self.say("restarting the stack".to_owned());
                self.say_each(&failures);
            },
            Pending::Adopt(cfg) => {
                self.confirm_adopt(cfg, &replies[0]);
            },
        }
    }
}

} // verus!
