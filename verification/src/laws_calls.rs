//! What calls of the operations give back and leave behind.
use vstd::prelude::*;
use crate::actions;
use crate::app;
use crate::app::{App, Pane, Row, Strategy};
use crate::confirm;
use crate::confirm::Call;
use crate::docker;
use crate::docker::Container;
use crate::env;
use crate::health;
use crate::health::HttpTarget;
use crate::keys;
use crate::keys::{Key, MouseEvent, Step};
use crate::laws_actions;
use crate::laws_reading;
use crate::laws_rows;
use crate::laws_services;
use crate::laws_view;
use crate::manager;
use crate::manager::{ConfigSource, Launch, Manager, Probe, SessionWrite};
use crate::platform;
use crate::platform::{Os, Output, PipeReply};
use crate::ports;
use crate::ports::{FdLink, PortEntry};
use crate::quick;
use crate::quick::StackStep;
use crate::rows;
use crate::services;
use crate::services::{Config, Service, ServiceConfig, Status, Wait};
use crate::split;
use crate::system;
use crate::system::{Lookup, Process};
use crate::text;
use crate::ui;
use crate::watch;
use crate::watch::{ChildState, OpState, Revive};

verus! {

// ------------------------------------------------------------------ services

/// A healthy service is up whenever it is asked.
pub proof fn healthy_services_are_up(s: Service, healthy: bool, now: u64, r: Status)
    requires
        call_ensures(Service::health, (&s, healthy, now), r),
    ensures
        healthy ==> r == Status::Up,
        s@.cfg.port is None && s@.cfg.health_url is None ==> r == Status::Up,
        !healthy && (s@.cfg.port is Some || s@.cfg.health_url is Some) ==> r == (if s@.started
            is Some && now < s@.started->0 + 5_000 {
            Status::Starting
        } else {
            Status::Down
        }),
{
}

/// A line of output is added at the end of the log, which keeps a thousand; a note of the
/// manager's own is added whatever the length.
pub proof fn lines_are_logged(s: &mut Service, t: &mut Service, line: String)
    requires
        call_ensures(Service::push_log, (s, line), ()),
        call_ensures(Service::note, (t, line), ()),
    ensures
        final(s)@.logs.len() > 0 && final(s)@.logs.last() == line@,
        old(s)@.logs.len() < 1_000 ==> final(s)@.logs.drop_last() == old(s)@.logs,
        old(s)@.logs.len() >= 1_000 ==> final(s)@.logs.drop_last() == old(s)@.logs.skip(1),
        final(s)@ == (services::ServiceView { logs: final(s)@.logs, ..old(s)@ }),
        final(t)@.logs == old(t)@.logs.push(line@),
        final(t)@ == (services::ServiceView { logs: final(t)@.logs, ..old(t)@ }),
{
    if old(s)@.logs.len() < 1_000 {
        assert(final(s)@.logs.drop_last() =~= old(s)@.logs);
    } else {
        assert(final(s)@.logs.drop_last() =~= old(s)@.logs.skip(1));
    }
}

/// A service is asked by its own methods what the manager asks.
pub proof fn services_do_what_they_are_told(
    s: &mut Service,
    t: &mut Service,
    u: &mut Service,
    wait: &Wait,
    sent: &Result<i32, String>,
    pid: i32,
    now: u64,
    r: (bool, bool),
)
    requires
        call_ensures(Service::tick, (s, wait, now), r),
        call_ensures(Service::mark_started, (t, pid, now), ()),
        call_ensures(Service::mark_stopped, (u, sent, now), ()),
    ensures
        (final(s)@, r.0, r.1) == services::ticked(old(s)@, *wait, now),
        final(t)@.child == Some(pid) && final(t)@.status == Status::Starting && final(t)@.started
            == Some(now) && final(t)@.backoff == old(t)@.backoff && final(t)@.logs == old(t)@.logs
            && final(t)@.restart_at is None && final(t)@.stop_requested is None
            && !final(t)@.user_stopped,
        final(u)@.user_stopped && final(u)@.restart_at is None && final(u)@.child == old(u)@.child
            && final(u)@.status == old(u)@.status,
        old(u)@.child is Some ==> final(u)@.stop_requested == Some(now),
{
}

/// What is asked of a service is what it is.
pub proof fn services_tell_their_state(
    s: Service,
    pid: Option<i32>,
    running: bool,
    shown: String,
    label: &'static str,
)
    requires
        call_ensures(Service::pid, (&s,), pid),
        call_ensures(Service::running, (&s,), running),
        call_ensures(Service::status_text, (&s,), shown),
        call_ensures(Status::label, (s.status,), label),
    ensures
        pid == s.child,
        running <==> s.child is Some,
        s.status == Status::Up && s@.cfg.health_url is Some ==> shown@ == "up (200)"@,
        s.status == Status::Up && s@.cfg.health_url is None && s@.cfg.port is Some ==> shown@
            == "up (port)"@,
        s.status != Status::Up || (s@.cfg.health_url is None && s@.cfg.port is None) ==> shown@
            == label@,
{
    laws_services::statuses_are_told_apart(s@, s@);
}

// ------------------------------------------------------------------ the manager

/// Without a configuration there are no services; with one there is one for each entry, stopped,
/// in file order; one that cannot be read or is malformed is an error that names the file.
pub proof fn configurations_are_loaded(source: ConfigSource, r: Result<Manager, String>, i: int)
    requires
        call_ensures(Manager::load, (source,), r),
    ensures
        source is Missing ==> (r matches Ok(m) && m@.services.len() == 0 && m@.stack is None
            && !m@.unsaved),
        source matches ConfigSource::Read(Ok(c)) ==> (r matches Ok(m) && m@.services.len()
            == c.services@.len() && m@.stack == manager::opt_texts(c.stack) && !m@.unsaved && (0
            <= i < c.services@.len() ==> m@.services[i].cfg == c.services@[i]@
            && m@.services[i].child is None && m@.services[i].status == Status::Stopped
            && m@.services[i].backoff == 1_000 && m@.services[i].logs.len() == 0)),
        source matches ConfigSource::Read(Err(e)) ==> (r matches Err(f) && f@ == "dev-panel.toml"@
            + ": "@ + e@),
        source matches ConfigSource::Unreadable(e) ==> (r matches Err(f) && f@ == "dev-panel.toml"@
            + ": "@ + e@),
{
}

/// A configuration that could be read is taken as it is.
pub proof fn configurations_are_taken_over(parsed: Result<Config, String>, r: Result<Config, String>)
    requires
        call_ensures(manager::parse_config, (parsed,), r),
    ensures
        parsed is Ok ==> r == parsed,
        parsed matches Err(e) ==> (r matches Err(f) && f@ == "dev-panel.toml"@ + ": "@ + e@),
{
}

/// Starting a service by hand.
pub proof fn starts_give_the_child(
    m: &mut Manager,
    i: usize,
    spawned: &Result<i32, String>,
    now: u64,
    r: Result<(), String>,
)
    requires
        call_ensures(Manager::start, (m, i, spawned, now), r),
        i < old(m)@.services.len(),
    ensures
        final(m)@ == old(m)@.start(i as int, *spawned, now),
        old(m)@.services[i as int].child is Some ==> final(m)@ == old(m)@ && r is Ok,
        old(m)@.services[i as int].child is None ==> match *spawned {
            Ok(pid) => {
                let t = final(m)@.services[i as int];
                &&& r is Ok
                &&& t.child == Some(pid) && t.status == Status::Starting && t.started == Some(now)
                &&& t.backoff == old(m)@.services[i as int].backoff
                &&& t.cfg == old(m)@.services[i as int].cfg
                &&& t.logs == old(m)@.services[i as int].logs
                &&& final(m)@.unsaved
            },
            Err(e) => final(m)@ == old(m)@ && (r matches Err(f) && f@ == e@),
        },
{
}

/// A start that a tick carries out leaves the backoff of the service as it was.
pub proof fn automatic_starts_keep_the_backoff(
    m: &mut Manager,
    i: usize,
    spawned: &Result<i32, String>,
    now: u64,
)
    requires
        call_ensures(Manager::tick_start, (m, i, spawned, now), ()),
        i < old(m)@.services.len(),
    ensures
        final(m)@ == old(m)@.tick_start(i as int, *spawned, now),
        final(m)@.services[i as int].backoff == old(m)@.services[i as int].backoff,
        final(m)@.services[i as int].cfg == old(m)@.services[i as int].cfg,
        old(m)@.services[i as int].child is None ==> match *spawned {
            Ok(pid) => final(m)@.services[i as int].child == Some(pid) && final(m)@.services[i as int].status == Status::Starting && final(m)@.services[i as int].restart_at is None && final(m)@.unsaved,
            Err(e) => final(m)@.services[i as int].child is None && final(m)@.services[i as int].status == Status::Crashed && final(m)@.services[i as int].logs
                == old(m)@.services[i as int].logs.push("[dev-panel] restart failed: "@ + e@),
        },
{
}

/// Stopping and restarting a service by hand, and the process that is signalled for it.
pub proof fn stops_and_restarts_mark_the_service(
    m: &mut Manager,
    n: &mut Manager,
    o: Manager,
    i: usize,
    reply: &Result<i32, String>,
    now: u64,
    r: Result<(), String>,
    target: Option<i32>,
)
    requires
        call_ensures(Manager::stop, (m, i, reply, now), ()),
        call_ensures(Manager::restart, (n, i, reply, now), r),
        call_ensures(Manager::stop_target, (&o, i), target),
        i < old(m)@.services.len(),
        i < old(n)@.services.len(),
        i < o@.services.len(),
    ensures
        final(m)@ == old(m)@.stop(i as int, *reply, now),
        final(m)@.services[i as int].user_stopped && final(m)@.unsaved,
        final(n)@ == old(n)@.restart(i as int, *reply, now),
        old(n)@.services[i as int].child is Some ==> r is Ok && final(n)@.services[i as int].restart_pending && final(n)@.services[i as int].child == old(n)@.services[i as int].child,
        old(n)@.services[i as int].child is None && *reply is Err ==> r is Err && final(n)@ == old(n)@,
        old(n)@.services[i as int].child is None && *reply is Ok ==> r is Ok && final(n)@.services[i as int].child == Some((*reply)->Ok_0),
        target == o@.services[i as int].child,
{
}

/// What is spawned for a service, by hand or from a session, is its command in its directory.
pub proof fn the_command_of_the_service_is_spawned(
    m: Manager,
    i: usize,
    name: &str,
    by_hand: Option<Launch>,
    resumed: Option<Launch>,
)
    requires
        call_ensures(Manager::launch, (&m, i), by_hand),
        call_ensures(Manager::resume_launch, (&m, name), resumed),
        i < m@.services.len(),
        m@.services.len() <= usize::MAX,
    ensures
        m@.services[i as int].child is Some <==> by_hand is None,
        by_hand matches Some(l) ==> l.service == i && l.cmd@ == m@.services[i as int].cfg.cmd
            && text::opt_text(l.cwd) == m@.services[i as int].cfg.cwd,
        (forall|j: int| 0 <= j < m@.services.len() ==> (#[trigger] m@.services[j]).cfg.name != name@)
            ==> resumed is None,
        m@.services[i as int].cfg.name == name@ && (forall|j: int|
            0 <= j < i ==> (#[trigger] m@.services[j]).cfg.name != name@) ==> manager::opt_launch(
            resumed,
        ) == manager::opt_launch(by_hand),
{
    laws_services::a_name_is_the_first_of_it(m@, name@, 0);
    if let Some(f) = m@.find(name@, 0) {
        assert(m@.services[f].cfg.name == name@);
        if m@.services[i as int].cfg.name == name@ && (forall|j: int|
            0 <= j < i ==> (#[trigger] m@.services[j]).cfg.name != name@) {
            if i < f {
                assert(m@.services[i as int].cfg.name != name@);
            }
        }
    }
}

/// A tick changes each service by what was seen of its child, and tells which children are killed
/// and which services are started.
pub proof fn ticks_look_at_each_service(
    m: &mut Manager,
    waits: &Vec<Wait>,
    now: u64,
    r: (Vec<usize>, Vec<usize>),
    i: int,
)
    requires
        call_ensures(Manager::tick, (m, waits, now), r),
        waits@.len() == old(m)@.services.len(),
        0 <= i < waits@.len() <= usize::MAX,
    ensures
        final(m)@ == old(m)@.tick(waits@, now),
        final(m)@.services.len() == old(m)@.services.len(),
        ({
            let t = services::ticked(old(m)@.services[i], waits@[i], now);
            &&& final(m)@.services[i] == t.0
            &&& r.0@.contains(i as usize) <==> t.1
            &&& r.1@.contains(i as usize) <==> t.2
        }),
{
    crate::laws::ticks_act_on_each(old(m)@, waits@, now, waits@.len(), i);
}

/// The session is written when what runs has changed since the last time, as the names of what
/// runs and was not stopped, a line each, and removed when nothing does.
pub proof fn sessions_are_saved_when_they_change(m: &mut Manager, r: Option<SessionWrite>, i: int)
    requires
        call_ensures(Manager::save_session, (m,), r),
    ensures
        r is Some <==> old(m)@.unsaved,
        final(m)@ == (manager::ManagerView { unsaved: false, ..old(m)@ }),
        (forall|j: int|
            0 <= j < old(m)@.services.len() ==> (#[trigger] old(m)@.services[j]).child is None
                || old(m)@.services[j].user_stopped) && r is Some ==> r->0 is Remove,
        0 <= i < old(m)@.services.len() && old(m)@.services[i].child is Some && !old(m)@.services[i].user_stopped && r is Some ==> (r->0 matches SessionWrite::Write(s) && s@
            == split::join(old(m)@.meant_to_run(old(m)@.services.len()), "\n"@)),
{
    let v = old(m)@;
    let at = laws_services::sessions_are_in_file_order(v, v.services.len());
    if forall|j: int|
        0 <= j < v.services.len() ==> (#[trigger] v.services[j]).child is None
            || v.services[j].user_stopped {
        if at.len() > 0 {
            assert(v.services[at[0]].child is Some);
        }
    }
    if 0 <= i < v.services.len() && v.services[i].child is Some && !v.services[i].user_stopped {
        assert(at.contains(i));
    }
}

/// A service of a saved session is started like by hand; a name that no service has is told and
/// changes nothing.
pub proof fn sessions_are_resumed_by_name(
    m: &mut Manager,
    name: &str,
    spawned: &Result<i32, String>,
    now: u64,
    r: String,
    i: int,
)
    requires
        call_ensures(Manager::resume_session, (m, name, spawned, now), r),
    ensures
        (forall|j: int|
            0 <= j < old(m)@.services.len() ==> (#[trigger] old(m)@.services[j]).cfg.name != name@)
            ==> final(m)@ == old(m)@ && r@ == "session had unknown service "@ + name@,
        0 <= i < old(m)@.services.len() && old(m)@.services[i].cfg.name == name@ && (forall|j: int|
            0 <= j < i ==> (#[trigger] old(m)@.services[j]).cfg.name != name@) ==> final(m)@ == old(m)@.start(i, *spawned, now) && (old(m)@.services[i].child is Some || *spawned is Ok ==> r@
            == "resumed "@ + name@) && (old(m)@.services[i].child is None && *spawned is Err ==> r@
            == "resume "@ + name@ + " failed: "@ + (*spawned)->Err_0@),
{
    let v = old(m)@;
    laws_services::a_name_is_the_first_of_it(v, name@, 0);
    if let Some(f) = v.find(name@, 0) {
        assert(v.services[f].cfg.name == name@);
        if 0 <= i < v.services.len() && v.services[i].cfg.name == name@ && (forall|j: int|
            0 <= j < i ==> (#[trigger] v.services[j]).cfg.name != name@) {
            if i < f {
                assert(v.services[i].cfg.name != name@);
            }
        }
    } else if 0 <= i < v.services.len() {
        assert(v.services[i].cfg.name != name@);
    }
}

/// A line of a service goes to its own log.
pub proof fn lines_go_to_their_service(m: &mut Manager, i: usize, line: String)
    requires
        call_ensures(Manager::push_log, (m, i, line), ()),
        i < old(m)@.services.len(),
    ensures
        final(m)@.services.len() == old(m)@.services.len(),
        final(m)@.services[i as int].logs.len() > 0 && final(m)@.services[i as int].logs.last()
            == line@,
        final(m)@.services[i as int] == (services::ServiceView {
            logs: final(m)@.services[i as int].logs,
            ..old(m)@.services[i as int]
        }),
        forall|j: int|
            0 <= j < old(m)@.services.len() && j != i ==> #[trigger] final(m)@.services[j] == old(m)@.services[j],
        final(m)@.unsaved == old(m)@.unsaved && final(m)@.stack == old(m)@.stack,
{
    laws_services::logs_keep_the_last_lines(old(m)@.services[i as int].logs, line@);
}

/// Adopting a service adds it, stopped, after the others.
pub proof fn adopted_services_come_last(m: &mut Manager, cfg: ServiceConfig)
    requires
        call_ensures(Manager::adopt, (m, cfg), ()),
    ensures
        final(m)@.services.len() == old(m)@.services.len() + 1,
        final(m)@.services.drop_last() == old(m)@.services,
        final(m)@.services.last().cfg == cfg@,
        final(m)@.services.last().child is None && final(m)@.services.last().status
            == Status::Stopped,
        final(m)@.stack == old(m)@.stack && final(m)@.unsaved == old(m)@.unsaved,
{
    assert(final(m)@.services.drop_last() =~= old(m)@.services);
}

/// What is probed, the order of the stack and the names of a saved session.
pub proof fn the_manager_is_asked(
    m: Manager,
    i: usize,
    probed: Probe,
    order: Vec<usize>,
    saved: Option<String>,
    names: Vec<String>,
)
    requires
        call_ensures(Manager::probe, (&m, i), probed),
        call_ensures(Manager::stack_order, (&m,), order),
        call_ensures(manager::resume_names, (&saved,), names),
    ensures
        probed@ == m@.probe(i as int),
        m@.stack is None ==> order@.len() == m@.services.len() && forall|k: int|
            0 <= k < order@.len() ==> #[trigger] order@[k] == k as usize,
        m@.stack is Some ==> order@ == m@.named(m@.stack->0),
        order@.no_duplicates(),
        text::texts(names@) == manager::names_to_resume(text::opt_text(saved)),
{
}

// ------------------------------------------------------------------ reading

/// Every listening socket of every table that some process holds is listed with its port and that
/// process, in the order of the ports.
pub proof fn listening_ports_are_complete(
    tables: Vec<String>,
    links: Vec<FdLink>,
    r: Vec<PortEntry>,
    t: int,
    s: int,
)
    requires
        call_ensures(ports::listening_ports, (&tables, &links), r),
        0 <= t < tables@.len(),
        0 <= s < ports::proc_sockets(tables@[t]@).len(),
        ports::holders(links@).contains_key(ports::proc_sockets(tables@[t]@)[s].0),
    ensures
        exists|i: int|
            0 <= i < r@.len() && (#[trigger] r@[i]).port == ports::proc_sockets(tables@[t]@)[s].1
                && r@[i].pid == ports::holders(links@)[ports::proc_sockets(tables@[t]@)[s].0],
        forall|i: int, j: int|
            0 <= i < j < r@.len() ==> (#[trigger] r@[i]).port <= (#[trigger] r@[j]).port,
{
    let out = ports::entries(r@);
    laws_reading::held_sockets_are_listed(out, tables@, links@, t, s);
    let i = choose|i: int|
        0 <= i < out.len() && (#[trigger] out[i]).port == ports::proc_sockets(tables@[t]@)[s].1
            && out[i].pid == ports::holders(links@)[ports::proc_sockets(tables@[t]@)[s].0];
    assert(r@[i]@ == out[i]);
    assert forall|i: int, j: int| 0 <= i < j < r@.len() implies (#[trigger] r@[i]).port <= (
    #[trigger] r@[j]).port by {
        laws_reading::lists_are_sorted(out, ports::held_entries(tables@, links@), false, i, j);
        assert(out[i] == r@[i]@ && out[j] == r@[j]@);
    }
}

/// What each reader gives is what is read.
pub proof fn readers_read(
    s: &str,
    sockets: Vec<(u64, u16)>,
    lsof: Vec<PortEntry>,
    netstat: Vec<PortEntry>,
    inode: Option<u64>,
    pid: Option<i32>,
    listed: Vec<Container>,
    unit: Option<String>,
    target: Option<HttpTarget>,
    healthy: bool,
)
    requires
        call_ensures(ports::parse_proc_net_tcp, (s,), sockets),
        call_ensures(ports::parse_lsof, (s,), lsof),
        call_ensures(ports::parse_netstat, (s,), netstat),
        call_ensures(ports::socket_inode, (s,), inode),
        call_ensures(ports::proc_pid, (s,), pid),
        call_ensures(docker::parse_ps, (s,), listed),
        call_ensures(platform::parse_cgroup_unit, (s,), unit),
        call_ensures(health::parse_health_url, (s,), target),
        call_ensures(health::http_healthy, (s,), healthy),
    ensures
        sockets@ == ports::proc_sockets(s@),
        ports::sorted_unique(ports::entries(lsof@), ports::lsof_lines(split::lines(s@)).found, true),
        ports::sorted_unique(ports::entries(netstat@), ports::netstat_entries(s@), false),
        inode == ports::link_inode(s@),
        pid is Some <==> text::parse_i32_spec(s@) is Some,
        pid is Some ==> text::parse_i32_spec(s@) == Some(pid->0 as int),
        docker::containers(listed@) == docker::ps_containers(s@),
        text::opt_text(unit) == platform::cgroup_unit(s@),
        target is Some <==> health::url_target(s@) is Some,
        target is Some ==> health::url_target(s@) == Some(target->0@),
        healthy <==> health::response_code(s@) is Some && health::response_code(s@)->0 == 200,
{
}

/// What a process says about itself: its unit, its agent, its command line and its directory, as
/// far as it was looked up.
pub proof fn processes_are_looked_up(
    os: Os,
    given: Option<String>,
    pid: i32,
    unit: Option<String>,
    label: Option<String>,
    words: Option<Vec<String>>,
    dir: Option<String>,
)
    requires
        call_ensures(platform::systemd_unit, (os, &given), unit),
        call_ensures(platform::launchd_label, (os, &given, pid), label),
        call_ensures(platform::ps_cmdline, (&given,), words),
        call_ensures(platform::lsof_cwd, (&given,), dir),
    ensures
        text::opt_text(unit) == platform::unit_of(os, text::opt_text(given)),
        text::opt_text(label) == platform::label_of(os, text::opt_text(given), pid),
        given is None ==> words is None && dir is None,
        given matches Some(s) ==> (words is Some <==> split::trim(s@).len() > 0),
        given is Some && words is Some ==> text::texts(words->0@) == split::words(
            split::trim(given->0@),
        ),
        text::opt_text(dir) == platform::lsof_dir(text::opt_text(given)),
{
}

/// A container's port is read from its ports, and so is that of any such text.
pub proof fn containers_tell_their_port(c: Container, s: &str, own: Option<u16>, read: Option<u16>)
    requires
        call_ensures(Container::host_port, (&c,), own),
        call_ensures(docker::first_host_port, (s,), read),
    ensures
        own == docker::host_port_of(c.ports@),
        read == docker::host_port_of(s@),
{
}

/// The difference between two environments has a line for each variable that is new, changed or
/// missing, and no other, in order.
pub proof fn environments_are_compared(
    theirs: Vec<(String, String)>,
    ours: Vec<(String, String)>,
    r: Vec<String>,
    environ: Vec<String>,
    pairs: Vec<(String, String)>,
    line: Seq<char>,
)
    requires
        call_ensures(env::env_diff, (&theirs, &ours), r),
        call_ensures(env::parse_environ, (&environ,), pairs),
    ensures
        text::texts(r@).contains(line) <==> env::diff_lines(
            env::pairs(theirs@),
            env::pairs(ours@),
        ).contains(line),
        r@.len() == env::diff_lines(env::pairs(theirs@), env::pairs(ours@)).len(),
        env::in_order(text::texts(r@)),
        env::pairs(pairs@) == env::environ_pairs(text::texts(environ@)),
{
    broadcast use vstd::seq_lib::group_to_multiset_ensures;

    let shown = text::texts(r@);
    let all = env::diff_lines(env::pairs(theirs@), env::pairs(ours@));
    assert(shown.to_multiset().count(line) == all.to_multiset().count(line));
    assert(shown.to_multiset().len() == all.to_multiset().len());
}

// ------------------------------------------------------------------ commands

/// What a command printed is its output when it ended well; otherwise it failed with what it
/// wrote as errors, or with why it could not be run. Containers are listed from it.
pub proof fn outputs_are_taken(
    reply: Result<Output, String>,
    r: Result<String, String>,
    listed: Result<Vec<Container>, String>,
)
    requires
        call_ensures(platform::run_ok, (&reply,), r),
        call_ensures(docker::list, (&reply,), listed),
    ensures
        reply matches Err(e) ==> (r matches Err(f) && f@ == e@) && (listed matches Err(f) && f@
            == e@),
        reply matches Ok(out) ==> {
            &&& out.success ==> (r matches Ok(s) && s@ == out.stdout@)
            &&& out.success ==> (listed matches Ok(v) && docker::containers(v@)
                == docker::ps_containers(out.stdout@))
            &&& !out.success ==> (r matches Err(f) && f@ == split::trim(out.stderr@))
            &&& !out.success ==> (listed matches Err(f) && f@ == split::trim(out.stderr@))
        },
{
}

/// A command line is handed to the shell as one word, at the end.
pub proof fn shells_get_the_command(os: Os, cmd: &str, r: Vec<String>)
    requires
        call_ensures(platform::shell, (os, cmd), r),
    ensures
        r@.len() == 3,
        r@[2]@ == cmd@,
        os is Windows ==> r@[0]@ == "cmd"@ && r@[1]@ == "/C"@,
        !(os is Windows) ==> r@[0]@ == "sh"@ && r@[1]@ == "-c"@,
{
    let t = text::texts(r@);
    assert(t.len() == 3);
    assert(t[0] == r@[0]@);
    assert(t[1] == r@[1]@);
    assert(t[2] == cmd@);
}

/// The commands about a process name it by its id, and those about a container by its id, as a
/// word of its own.
pub proof fn commands_name_their_subject(
    pid: i32,
    force: bool,
    id: &str,
    ps: Vec<String>,
    lsof: Vec<String>,
    kill: Vec<String>,
    stop: Vec<String>,
    restart: Vec<String>,
    list: Vec<String>,
)
    requires
        call_ensures(platform::ps_args, (pid,), ps),
        call_ensures(platform::lsof_cwd_args, (pid,), lsof),
        call_ensures(platform::taskkill_args, (pid, force), kill),
        call_ensures(docker::stop, (id,), stop),
        call_ensures(docker::restart, (id,), restart),
        call_ensures(docker::list_args, (), list),
    ensures
        text::texts(ps@) == seq!["-p"@, text::signed_decimal(pid as int), "-o"@, "command="@],
        text::texts(lsof@) == seq![
            "-a"@,
            "-p"@,
            text::signed_decimal(pid as int),
            "-d"@,
            "cwd"@,
            "-Fn"@,
        ],
        kill@.len() > 0 && kill@.last()@ == text::signed_decimal(pid as int),
        force <==> kill@.len() == 3,
        !force ==> kill@.len() == 2 && kill@[0]@ == "/PID"@,
        force ==> kill@[0]@ == "/F"@ && kill@[1]@ == "/PID"@,
        text::texts(stop@) == seq!["stop"@, "-t"@, "3"@, id@],
        text::texts(restart@) == seq!["restart"@, "-t"@, "3"@, id@],
        text::texts(list@) == seq![
            "ps"@,
            "--format"@,
            "{{.ID}}\t{{.Names}}\t{{.Image}}\t{{.Ports}}\t{{.Status}}"@,
        ],
{
    let t = text::texts(kill@);
    assert(t.len() == kill@.len());
    assert(t.last() == kill@.last()@ && t[0] == kill@[0]@ && t[1] == kill@[1]@);
}

/// Supervisors restart what they are told to, each on its own system only.
pub proof fn supervisors_are_told_what_to_restart(
    os: Os,
    name: &str,
    unit: Result<Vec<String>, String>,
    label: Result<Vec<String>, String>,
)
    requires
        call_ensures(platform::systemctl_restart, (os, name), unit),
        call_ensures(platform::launchctl_restart, (os, name), label),
    ensures
        unit is Ok <==> os is Linux,
        label is Ok <==> os is MacOs,
        unit matches Ok(v) ==> text::texts(v@) == seq!["systemctl"@, "restart"@, name@],
        label matches Ok(v) ==> text::texts(v@) == seq![
            "launchctl"@,
            "kickstart"@,
            "-k"@,
            name@,
        ],
        unit matches Err(e) ==> e@ == "systemd restart is Linux-only"@,
        label matches Err(e) ==> e@ == "launchd restart is macOS-only"@,
{
}

/// A page is opened by the system, a folder by the editor and else by the system.
pub proof fn targets_are_opened(os: Os, target: &str, page: Vec<String>, editor: (Vec<String>, Vec<String>))
    requires
        call_ensures(platform::open_external, (os, target), page),
        call_ensures(platform::open_in_editor, (os, target), editor),
    ensures
        page@.len() > 0 && page@.last()@ == target@,
        text::texts(editor.0@) == seq!["code"@, target@],
        text::texts(editor.1@) == text::texts(page@),
        os is MacOs ==> text::texts(page@) == seq!["open"@, target@],
        os is Linux ==> text::texts(page@) == seq!["xdg-open"@, target@],
        os is Windows ==> text::texts(page@) == seq!["cmd"@, "/C"@, "start"@, ""@, target@],
{
    let t = text::texts(page@);
    assert(t.len() == page@.len() && t.last() == page@.last()@);
}

/// On Linux the clipboard tools are tried one after the other while they are not there; the last
/// that is not there, and any other failure, ends it.
pub proof fn clipboards_are_tried(
    os: Os,
    tried: usize,
    reply: PipeReply,
    tool: Option<Vec<String>>,
    r: Option<Result<(), String>>,
)
    requires
        call_ensures(platform::clipboard_tool, (os, tried), tool),
        call_ensures(platform::copy_clipboard, (os, tried, &reply), r),
    ensures
        os is Linux ==> (tool is Some <==> tried < 3),
        !(os is Linux) ==> (tool is Some <==> tried == 0),
        tool matches Some(v) ==> {
            &&& os is MacOs ==> text::texts(v@) == seq!["pbcopy"@]
            &&& os is Windows ==> text::texts(v@) == seq!["clip"@]
            &&& os is Linux && tried == 0 ==> text::texts(v@) == seq!["wl-copy"@]
            &&& os is Linux && tried == 1 ==> text::texts(v@) == seq![
                "xclip"@,
                "-selection"@,
                "clipboard"@,
            ]
            &&& os is Linux && tried == 2 ==> text::texts(v@) == seq!["xsel"@, "-ib"@]
        },
        r is None <==> reply is NotFound && os is Linux && tried < 2,
        r matches Some(x) ==> (x is Ok <==> reply is Done),
        reply matches PipeReply::Failed(e) ==> (r matches Some(Err(f)) && f@ == e@),
        reply is NonZero ==> (r matches Some(Err(f)) && f@ == "clipboard tool exited non-zero"@),
        reply matches PipeReply::NotFound(e) ==> (!(os is Linux) ==> (r matches Some(Err(f)) && f@
            == e@)),
        reply is NotFound && os is Linux && tried >= 2 ==> (r matches Some(Err(f)) && f@
            == "no clipboard tool (wl-copy/xclip/xsel)"@),
{
}

/// The request asks for the path at the host and for the connection to be closed after it.
pub proof fn requests_ask_for_the_path(target: HttpTarget, r: String)
    requires
        call_ensures(health::http_request, (&target,), r),
    ensures
        r@ == "GET "@ + target.path@ + " HTTP/1.1\r\nHost: "@ + target.host@
            + "\r\nConnection: close\r\n\r\n"@,
{
}

// ------------------------------------------------------------------ the table

/// Building the rows gives every service its row: its name, port and command as configured, and
/// the process that runs.
pub proof fn built_rows_show_the_services(a: &mut App, i: int)
    requires
        call_ensures(App::build_rows, (a,), ()),
        0 <= i < old(a)@.manager.services.len() <= usize::MAX,
        old(a)@.filter.len() == 0,
    ensures
        final(a)@ == rows::built(old(a)@),
        final(a)@.rows.len() >= old(a)@.manager.services.len(),
        final(a)@.rows[i].pid == old(a)@.manager.services[i].child,
        final(a)@.rows[i].port == old(a)@.manager.services[i].cfg.port,
        final(a)@.rows[i].name == old(a)@.manager.services[i].cfg.name,
        final(a)@.rows[i].cmd == old(a)@.manager.services[i].cfg.cmd,
        final(a)@.rows[i].kind == app::RowKindView::Service(i as usize),
        final(a)@.manager == old(a)@.manager,
{
    laws_rows::services_are_shown(old(a)@, i);
}

/// A poll, the building of the rows and the warning about conflicts.
pub proof fn polls_and_refreshes_go_on(
    a: &mut App,
    b: &mut App,
    c: &mut App,
    processes: Vec<Process>,
    lookups: Vec<Lookup>,
    found: Result<Vec<PortEntry>, String>,
    listed: Result<Vec<Container>, String>,
)
    requires
        call_ensures(App::poll, (a, processes, lookups, found, listed), ()),
        call_ensures(App::refresh, (b,), ()),
        call_ensures(App::warn_conflicts_once, (c,), ()),
    ensures
        final(a)@ == rows::polled(
            old(a)@,
            system::processes(processes@),
            system::lookup_views(lookups@),
            found,
            listed,
        ),
        final(b)@.rows == rows::built(old(b)@).rows,
        final(b)@.table == rows::built(old(b)@).table,
        final(b)@.warned_conflicts,
        final(b)@ == rows::warned(rows::built(old(b)@)),
        final(c)@ == rows::warned(old(c)@),
        final(c)@.rows == old(c)@.rows,
{
}

/// How a process is restarted and whether a row is found by a query.
pub proof fn rows_are_decided_on(
    a: App,
    pid: i32,
    port: Option<u16>,
    cmd: Vec<String>,
    lookup: Lookup,
    r: Strategy,
    known: Vec<String>,
    name: &str,
    line: &str,
    query: &str,
    found: bool,
)
    requires
        call_ensures(App::strategy_for, (&a, pid, port, &cmd, &lookup), r),
        call_ensures(App::command_for, (&a, pid, &lookup), known),
        call_ensures(rows::row_matches, (name, line, port, query), found),
    ensures
        r@ == rows::process_strategy(
            a@.manager,
            a@.os,
            pid,
            port,
            text::texts(cmd@),
            lookup@,
        ),
        text::texts(known@) == rows::known_command(a@.system, pid, lookup@),
        port matches Some(p) ==> (found <==> split::contains(name@, query@) || split::contains(
            line@,
            query@,
        ) || split::contains(text::decimal(p as nat), query@)),
        port is None && query@.len() > 0 ==> (found <==> split::contains(name@, query@)
            || split::contains(line@, query@)),
{
    let none = Seq::<char>::empty();
    if split::contains(none, query@) {
        let j = choose|j: int| split::stands_at(none, j, query@);
        assert(query@.len() == 0);
    }
}

/// The selected row is the one at the selected place, and a process is alive when the table has
/// it.
pub proof fn the_panel_is_asked(a: App, pid: i32, r: Option<&Row>, living: bool)
    requires
        call_ensures(App::selected_row, (&a,), r),
        call_ensures(App::alive, (&a, pid), living),
    ensures
        a.table.selected is None ==> r is None,
        a.table.selected matches Some(i) ==> (r is Some <==> i < a.rows@.len()),
        a.table.selected is Some && r is Some ==> r->0@ == a.rows@[a.table.selected->0 as int]@,
        living <==> exists|x: int| 0 <= x < a.system@.len() && (#[trigger] a.system@[x]).pid == pid,
{
    laws_reading::the_living_are_in_the_table(a@.system, pid);
    if living {
        let x = choose|x: int| 0 <= x < a@.system.len() && (#[trigger] a@.system[x]).pid == pid;
        assert(a.system@[x].pid == pid);
    }
    if exists|x: int| 0 <= x < a.system@.len() && (#[trigger] a.system@[x]).pid == pid {
        let x = choose|x: int| 0 <= x < a.system@.len() && (#[trigger] a.system@[x]).pid == pid;
        assert(a@.system[x].pid == pid);
    }
}

/// What is said is the message and the last event.
pub proof fn what_is_said_is_the_message(a: &mut App, b: &mut App, message: String, more: Vec<String>)
    requires
        call_ensures(App::say, (a, message), ()),
        call_ensures(App::say_each, (b, &more), ()),
    ensures
        final(a)@.message == message@,
        final(a)@.events.len() > 0 && final(a)@.events.last() == message@,
        final(a)@ == (app::AppView {
            message: message@,
            events: final(a)@.events,
            ..old(a)@
        }),
        more@.len() == 0 ==> final(b)@ == old(b)@,
        more@.len() > 0 ==> final(b)@.message == more@.last()@ && final(b)@.events.last()
            == more@.last()@,
{
    if more@.len() > 0 {
        let t = text::texts(more@);
        assert(t.last() == more@.last()@);
    }
}

// ------------------------------------------------------------------ actions

/// A restart that is asked for takes the directory from the process table where it is known, and
/// otherwise from what `lsof` printed.
pub proof fn asked_restarts_know_the_directory(
    a: &mut App,
    lookup: &Lookup,
    row: app::RowView,
    before: Seq<Seq<char>>,
    dir: Seq<char>,
    after: Seq<Seq<char>>,
)
    requires
        call_ensures(App::request_restart, (a, lookup), ()),
        old(a)@.selected_row() == Some(row),
        row.kind is Process,
        actions::guard(old(a)@, row) is None,
        final(a)@.pending != old(a)@.pending,
        forall|i: int|
            0 <= i < before.len() ==> (#[trigger] before[i]).len() == 0 || before[i][0] != 'n',
    ensures
        final(a)@ == actions::restart_requested(old(a)@, lookup@),
        final(a)@.pending matches Some(app::PendingView::Restart { pid, name, cwd, port, .. })
            && Some(pid) == Some(row.pid->0) && name == row.name && port == row.port && ({
            let known = system::process_of(old(a)@.system, pid);
            &&& known is Some && known->0.cwd is Some ==> cwd == known->0.cwd
            &&& !(known is Some && known->0.cwd is Some) && lookup@.lsof is Some && split::lines(
                lookup@.lsof->0,
            ) == before.push(seq!['n'] + dir) + after ==> cwd == Some(dir)
        }),
{
    laws_actions::restarts_are_of_the_selected_row(old(a)@, lookup@, row, before, dir, after);
}

/// Asking for an action does what is said of it.
pub proof fn actions_are_asked_for(
    a: &mut App,
    b: &mut App,
    c: &mut App,
    d: &mut App,
    lookup: &Lookup,
)
    requires
        call_ensures(App::request_kill, (a,), ()),
        call_ensures(App::request_adopt, (b, lookup), ()),
        call_ensures(App::request_stack_stop, (c,), ()),
        call_ensures(App::request_stack_restart, (d,), ()),
    ensures
        final(a)@ == actions::kill_requested(old(a)@),
        final(b)@ == actions::adopt_requested(old(b)@, lookup@),
        old(c)@.manager.services.len() > 0 ==> final(c)@ == (app::AppView {
            pending: Some(app::PendingView::StackStop),
            ..old(c)@
        }),
        old(c)@.manager.services.len() == 0 ==> final(c)@.pending == old(c)@.pending,
        old(d)@.manager.services.len() > 0 ==> final(d)@ == (app::AppView {
            pending: Some(app::PendingView::StackRestart),
            ..old(d)@
        }),
        old(d)@.manager.services.len() == 0 ==> final(d)@.pending == old(d)@.pending,
{
}

/// What is asked before and about an action: whether the row is guarded, which process is looked
/// up, where it runs, and how the question reads.
pub proof fn actions_are_asked_about(
    a: App,
    row: Row,
    pid: i32,
    lookup: Lookup,
    own: bool,
    guarded: Option<String>,
    looked_up: Option<i32>,
    adopted: Option<i32>,
    dir: Option<String>,
    question: Option<String>,
    preview: Vec<String>,
)
    requires
        call_ensures(App::is_own, (&a, pid), own),
        call_ensures(App::kill_guard, (&a, &row), guarded),
        call_ensures(App::lookup_pid, (&a,), looked_up),
        call_ensures(App::adopt_pid, (&a,), adopted),
        call_ensures(App::cwd_for, (&a, pid, &lookup), dir),
        call_ensures(App::describe_pending, (&a,), question),
        call_ensures(App::preview_pending, (&a,), preview),
    ensures
        own == actions::in_own_tree(a@, pid),
        pid == a.own_pid ==> own,
        text::opt_text(guarded) == actions::guard(a@, row@),
        a@.selected_row() is Some && a@.selected_row()->0.kind is Process ==> looked_up
            == a@.selected_row()->0.pid,
        a@.selected_row() is None || !(a@.selected_row()->0.kind is Process) ==> looked_up is None,
        a@.pending is Some && a@.pending->0 is Restart ==> adopted is None,
        !(a@.pending is Some && a@.pending->0 is Restart) ==> adopted == looked_up,
        text::opt_text(dir) == system::cwd_of(system::process_of(a@.system, pid), lookup@),
        text::opt_text(question) == actions::question(a@),
        text::texts(preview@) == actions::preview(a@),
{
}

/// Confirming makes the calls of what is pending and takes their replies over.
pub proof fn confirming_makes_the_calls(
    a: &mut App,
    b: App,
    replies: &Vec<Result<i32, String>>,
    now: u64,
    calls: Vec<Call>,
)
    requires
        call_ensures(App::pending_calls, (&b,), calls),
        call_ensures(App::confirm_pending, (a, replies, now), ()),
    ensures
        confirm::call_views(calls@) == confirm::calls_of(b@),
        b@.pending is None ==> calls@.len() == 0,
        final(a)@ == confirm::confirmed(old(a)@, replies@, now),
        old(a)@.pending is None ==> final(a)@ == old(a)@,
{
    assert(confirm::call_views(calls@).len() == calls@.len());
}

/// What is watched after an action: processes that were asked to exit, restarts that wait for
/// them, what was run again and background work.
pub proof fn actions_are_watched(
    a: &mut App,
    b: &mut App,
    c: &mut App,
    d: &mut App,
    e: App,
    killed: &Vec<Result<(), String>>,
    at: usize,
    reply: &Result<i32, String>,
    states: &Vec<ChildState>,
    ops: &Vec<OpState>,
    now: u64,
    overdue: Vec<i32>,
    revive: Revive,
    next: usize,
    waiting: Vec<usize>,
)
    requires
        call_ensures(App::watch_kills, (a, killed, now), ()),
        call_ensures(App::watch_respawns, (b, at, reply, now), next),
        call_ensures(App::watch_respawn_crashes, (c, states, now), ()),
        call_ensures(App::watch_docker_ops, (d, ops), waiting),
        call_ensures(App::overdue_kills, (&e, now), overdue),
        call_ensures(App::respawn_revive, (&e, at), revive),
        at < old(b)@.respawns.len(),
    ensures
        final(a)@ == watch::kills_watched(old(a)@, killed@, now),
        final(b)@ == watch::respawn_watched(old(b)@, at as int, *reply, now),
        old(b)@.alive(old(b)@.respawns[at as int].pid) && now < old(b)@.respawns[at as int].since + 15_000 ==> next == at + 1 && final(b)@ == old(b)@,
        !old(b)@.alive(old(b)@.respawns[at as int].pid) || now >= old(b)@.respawns[at as int].since + 15_000 ==> next == at && final(b)@.respawns == old(b)@.respawns.remove(at as int),
        final(c)@ == watch::crashes_watched(old(c)@, states@, now),
        final(d)@ == old(d)@.say_all(watch::op_messages(ops@)),
        waiting@ == watch::ops_waiting(ops@, ops@.len()),
        overdue@ == watch::overdue(e@, e@.term_sent, now),
        revive@ == watch::revive_of(e@, e@.respawns[at as int]),
{
    laws_actions::restarts_are_carried_out_or_given_up(old(b)@, at as int, *reply, now);
}

/// The quick actions do what is said of them, with what they ask for.
pub proof fn quick_actions_act(
    a: &mut App,
    b: &mut App,
    c: &mut App,
    d: &mut App,
    e: &mut App,
    f: App,
    spawned: &Result<i32, String>,
    replies: &Vec<Result<i32, String>>,
    done: &Result<(), String>,
    pid_first: bool,
    now: u64,
    launch: Option<Launch>,
    step: StackStep,
    url: Option<String>,
    copied: Option<String>,
    dir: Option<String>,
)
    requires
        call_ensures(App::start_selected, (a, spawned, now), ()),
        call_ensures(App::start_all, (b, replies, now), ()),
        call_ensures(App::open_browser, (c, done), ()),
        call_ensures(App::copy, (d, pid_first, done), ()),
        call_ensures(App::open_editor, (e, done), ()),
        call_ensures(App::start_launch, (&f,), launch),
        call_ensures(App::next_start, (&f, replies), step),
        call_ensures(App::browser_url, (&f,), url),
        call_ensures(App::copy_text, (&f, pid_first), copied),
        call_ensures(App::editor_dir, (&f,), dir),
    ensures
        final(a)@ == quick::selected_started(old(a)@, *spawned, now),
        final(b)@ == quick::stack_started(old(b)@, replies@, now),
        final(c)@ == quick::browser_opened(old(c)@, *done),
        final(d)@ == quick::copied(old(d)@, pid_first, *done),
        final(e)@ == quick::editor_opened(old(e)@, *done),
        manager::opt_launch(launch) == quick::selected_launch(f@),
        step@ == quick::next_start_of(f@.manager, replies@),
        text::opt_text(url) == quick::url_of(f@),
        f@.selected_row() matches Some(row) ==> text::opt_text(copied) == quick::copy_text_of(
            row,
            pid_first,
        ) && text::opt_text(dir) == quick::folder_of(f@, row),
        f@.selected_row() is None ==> copied is None && dir is None && url is None && launch is None,
{
}

// ------------------------------------------------------------------ keys and drawing

/// Keys and clicks do what is said of them.
pub proof fn keys_and_clicks_act(
    a: &mut App,
    b: &mut App,
    c: &mut App,
    key: Key,
    ev: MouseEvent,
    pane: Pane,
    by_key: Step,
    by_click: Step,
)
    requires
        call_ensures(App::on_key, (a, key), by_key),
        call_ensures(App::on_mouse, (b, ev), by_click),
        call_ensures(App::toggle_pane, (c, pane), ()),
    ensures
        (final(a)@, by_key) == keys::keyed(old(a)@, key),
        (final(b)@, by_click) == keys::clicked(old(b)@, ev),
        old(c)@.pane == Some(pane) ==> final(c)@.pane is None,
        old(c)@.pane != Some(pane) ==> final(c)@.pane == Some(pane),
        final(c)@.log_scroll == 0,
        by_key is Quit <==> !old(a)@.filter_editing && key == Key::Char('q'),
{
}

/// What is drawn of a row, of the times, of a text's place and of the screen.
pub proof fn parts_are_drawn(
    row: Row,
    secs: u64,
    area: app::Rect,
    w: u16,
    h: u16,
    status: &str,
    a: App,
    cells: Vec<String>,
    coloured: Vec<ui::Cell>,
    tone: ui::Tone,
    time: String,
    placed: app::Rect,
    title: String,
    sections: Vec<ui::Extent>,
    footer: String,
)
    requires
        call_ensures(ui::row_cells, (&row,), cells),
        call_ensures(ui::coloured_cells, (&row,), coloured),
        call_ensures(ui::status_style, (status,), tone),
        call_ensures(ui::format_duration, (secs,), time),
        call_ensures(ui::centered, (area, w, h), placed),
        call_ensures(App::title, (&a,), title),
        call_ensures(App::sections, (&a,), sections),
        call_ensures(App::footer, (&a,), footer),
    ensures
        text::texts(cells@) == ui::cells(row@),
        ui::cell_views(coloured@) == ui::coloured(row@),
        tone == ui::tone(text::lowercase(status@)),
        time@ == ui::duration_text(secs as nat),
        placed == ui::centred(area, w, h),
        title@ == ui::table_title(a@.filter),
        sections@ == ui::heights(a@),
        footer@ == ui::footer_text(a@),
{
}

/// The table shows a line for each row, and keeps where it was drawn.
pub proof fn tables_are_drawn(a: &mut App, area: app::Rect, r: ui::TablePane, i: int)
    requires
        call_ensures(App::draw_table, (a, area), r),
    ensures
        final(a)@ == (app::AppView { table_area: area, ..old(a)@ }),
        r.title@ == ui::table_title(old(a)@.filter),
        r.rows@.len() == old(a)@.rows.len(),
        text::texts(r.header@) == ui::heads(),
        0 <= i < r.rows@.len() ==> ui::cell_views(r.rows@[i]@) == ui::coloured(old(a)@.rows[i]),
{
}

/// The panes and the question box show what is said of them.
pub proof fn panes_are_drawn(
    a: &mut App,
    b: &mut App,
    c: &mut App,
    d: App,
    height: u16,
    lookup: &Lookup,
    ours: &Vec<(String, String)>,
    screen: app::Rect,
    pane: Option<ui::PaneContent>,
    logs: ui::TextPane,
    events: ui::TextPane,
    details: Vec<String>,
    difference: Vec<String>,
    usage: Option<(Vec<u64>, String)>,
    modal: Option<ui::Modal>,
)
    requires
        call_ensures(App::draw_pane, (a, height, lookup, ours), pane),
        call_ensures(App::draw_logs, (b, height), logs),
        call_ensures(App::draw_events, (c, height), events),
        call_ensures(App::details_lines, (&d, lookup), details),
        call_ensures(App::env_diff_lines, (&d, ours), difference),
        call_ensures(App::usage_data, (&d,), usage),
        call_ensures(App::draw_modal, (&d, screen), modal),
    ensures
        final(a)@ == ui::pane_drawn(old(a)@, height),
        ui::shows_pane(old(a)@, height, lookup@, env::pairs(ours@), pane),
        final(b)@ == ui::logs_drawn(old(b)@, height),
        logs.title@ == ui::logs_title(old(b)@),
        text::texts(logs.lines@) == ui::log_lines(old(b)@, height),
        final(c)@ == ui::events_drawn(old(c)@, height),
        events.title@ == ui::events_title(old(c)@),
        text::texts(events.lines@) == ui::event_lines(old(c)@, height),
        text::texts(details@) == ui::details_of(d@, lookup@),
        ui::shows_env_diff(d@, env::pairs(ours@), text::texts(difference@)),
        usage is Some <==> ui::usage_of(d@) is Some,
        usage matches Some((hist, summary)) ==> ui::usage_of(d@) == Some((hist@, summary@)),
        modal is Some <==> d@.pending is Some,
        modal matches Some(m) ==> ui::modal_text(d@) == Some(text::texts(m.lines@)) && m.area
            == ui::centred(screen, 60, (m.lines@.len() + 2) as u16),
{
    laws_view::questions_are_shown(d@);
}

/// A panel begins ready, with the services that it was given.
pub proof fn panels_begin_with_their_services(m: Manager, os: Os, own_pid: i32, is_root: bool, r: App)
    requires
        call_ensures(App::new, (m, os, own_pid, is_root), r),
    ensures
        r@.manager == m@,
        r@.message == "ready"@,
        r@.pending is None && r@.rows.len() == 0 && r@.docker_ok,
        r@ == app::fresh(m@, os, own_pid, is_root),
{
}

} // verus!
