//! What starting, stopping, restarting and ticking do to a service, field by field and over any
//! run of them.
use vstd::prelude::*;
use crate::health;
use crate::laws;
use crate::manager;
use crate::services;
use crate::services::{Status, Wait};

verus! {

// ------------------------------------------------------------------ starting

/// A start that succeeds gives the service its child and makes it starting as of now, with no
/// stop and no scheduled restart left; its configuration, its log, its backoff and a restart that
/// was asked for stay. The session has changed, and the other services have not.
pub proof fn a_start_gives_the_child(m: manager::ManagerView, i: int, pid: i32, now: u64)
    requires
        0 <= i < m.services.len(),
        m.services[i].child is None,
    ensures
        ({
            let s = m.services[i];
            let after = m.start(i, Ok::<i32, String>(pid), now);
            let t = after.services[i];
            &&& t.child == Some(pid)
            &&& t.status == Status::Starting
            &&& t.started == Some(now)
            &&& t.stop_requested == None::<u64>
            &&& t.restart_at == None::<u64>
            &&& !t.user_stopped
            &&& t.backoff == s.backoff
            &&& t.cfg == s.cfg
            &&& t.logs == s.logs
            &&& t.restart_pending == s.restart_pending
            &&& after.unsaved
            &&& after.stack == m.stack
            &&& after.services.len() == m.services.len()
            &&& forall|j: int|
                0 <= j < m.services.len() && j != i ==> #[trigger] after.services[j]
                    == m.services[j]
            &&& m.start_error(i, Ok::<i32, String>(pid)) is None
        }),
{
}

/// A start that fails changes nothing and hands the reason on; one of a service that runs changes
/// nothing and is no failure.
pub proof fn a_failed_start_changes_nothing(
    m: manager::ManagerView,
    i: int,
    e: String,
    spawned: Result<i32, String>,
    now: u64,
)
    requires
        0 <= i < m.services.len(),
    ensures
        m.services[i].child is None ==> m.start(i, Err::<i32, String>(e), now) == m && m.start_error(
            i,
            Err::<i32, String>(e),
        ) == Some(e@),
        m.services[i].child is Some ==> m.start(i, spawned, now) == m && m.start_error(
            i,
            spawned,
        ) is None,
{
}

/// What is spawned for a service is its configured command in its configured directory, and
/// nothing is spawned for one that runs.
pub proof fn the_configured_command_is_spawned(m: manager::ManagerView, i: int)
    requires
        0 <= i < m.services.len() <= usize::MAX,
    ensures
        m.services[i].child is Some ==> m.launch(i) is None,
        m.services[i].child is None ==> m.launch(i) is Some && m.launch(i)->0.service == i
            && m.launch(i)->0.cmd == m.services[i].cfg.cmd && m.launch(i)->0.cwd
            == m.services[i].cfg.cwd,
{
}

/// A start that a tick carries out leaves the backoff as it was, whether it succeeds or not; it
/// gives the service its child like any other start, and a failure is a crash that the log ends
/// with.
pub proof fn an_automatic_start_keeps_the_backoff(
    m: manager::ManagerView,
    i: int,
    spawned: Result<i32, String>,
    now: u64,
)
    requires
        0 <= i < m.services.len(),
    ensures
        ({
            let s = m.services[i];
            let after = m.tick_start(i, spawned, now);
            let t = after.services[i];
            &&& t.backoff == s.backoff
            &&& t.cfg == s.cfg
            &&& t.restart_pending == s.restart_pending
            &&& after.services.len() == m.services.len()
            &&& after.stack == m.stack
            &&& forall|j: int|
                0 <= j < m.services.len() && j != i ==> #[trigger] after.services[j]
                    == m.services[j]
            &&& s.child is Some ==> after == m
            &&& s.child is None ==> match spawned {
                Ok(pid) => {
                    &&& t.child == Some(pid)
                    &&& t.status == Status::Starting
                    &&& t.started == Some(now)
                    &&& t.stop_requested == None::<u64>
                    &&& t.restart_at == None::<u64>
                    &&& !t.user_stopped
                    &&& t.logs == s.logs
                    &&& after.unsaved
                },
                Err(e) => {
                    &&& t.child is None
                    &&& t.status == Status::Crashed
                    &&& t.logs.len() == s.logs.len() + 1
                    &&& t.logs.drop_last() == s.logs
                    &&& t.logs.last() == "[dev-panel] restart failed: "@ + e@
                    &&& t.restart_at == s.restart_at
                    &&& t.started == s.started
                    &&& t.stop_requested == s.stop_requested
                    &&& t.user_stopped == s.user_stopped
                    &&& after.unsaved == m.unsaved
                },
            }
        }),
{
    if let Err(e) = spawned {
        let s = m.services[i];
        assert(s.logs.push("[dev-panel] restart failed: "@ + e@).drop_last() =~= s.logs);
    }
}

// ------------------------------------------------------------------ stopping

/// A stop marks the service as stopped by its user as of now and calls a scheduled restart off;
/// the child stays until it is seen to exit, and only a signal that could not be sent is logged.
pub proof fn a_stop_waits_for_the_exit(
    m: manager::ManagerView,
    i: int,
    sent: Result<i32, String>,
    now: u64,
)
    requires
        0 <= i < m.services.len(),
    ensures
        ({
            let s = m.services[i];
            let after = m.stop(i, sent, now);
            let t = after.services[i];
            &&& t.user_stopped
            &&& t.restart_at == None::<u64>
            &&& t.child == s.child
            &&& t.status == s.status
            &&& t.started == s.started
            &&& t.backoff == s.backoff
            &&& t.cfg == s.cfg
            &&& t.restart_pending == s.restart_pending
            &&& after.unsaved
            &&& after.stack == m.stack
            &&& after.services.len() == m.services.len()
            &&& forall|j: int|
                0 <= j < m.services.len() && j != i ==> #[trigger] after.services[j]
                    == m.services[j]
            &&& s.child is Some ==> t.stop_requested == Some(now)
            &&& s.child is None ==> t.stop_requested == s.stop_requested && t.logs == s.logs
            &&& s.child is Some ==> match sent {
                Ok(_) => t.logs == s.logs,
                Err(e) => t.logs.len() == s.logs.len() + 1 && t.logs.drop_last() == s.logs
                    && t.logs.last() == "[dev-panel] stop failed: "@ + e@,
            }
        }),
{
    if let Err(e) = sent {
        let s = m.services[i];
        assert(s.logs.push("[dev-panel] stop failed: "@ + e@).drop_last() =~= s.logs);
    }
}

/// A restart of a service that runs is a stop with the restart noted; of one that does not run it
/// is a start.
pub proof fn a_restart_is_a_stop_or_a_start(
    m: manager::ManagerView,
    i: int,
    reply: Result<i32, String>,
    now: u64,
)
    requires
        0 <= i < m.services.len(),
    ensures
        ({
            let after = m.restart(i, reply, now);
            let stopped = m.stop(i, reply, now);
            &&& m.services[i].child is None ==> after == m.start(i, reply, now)
            &&& m.services[i].child is Some ==> {
                let t = after.services[i];
                let u = stopped.services[i];
                &&& t.restart_pending
                &&& t.user_stopped && t.stop_requested == Some(now) && t.restart_at
                    == None::<u64>
                &&& t.child == m.services[i].child
                &&& t.logs == u.logs
                &&& t.status == u.status
                &&& t.started == u.started
                &&& t.backoff == u.backoff
                &&& t.cfg == u.cfg
                &&& after.unsaved
                &&& after.stack == m.stack
                &&& after.services.len() == m.services.len()
                &&& forall|j: int|
                    0 <= j < m.services.len() && j != i ==> #[trigger] after.services[j]
                        == m.services[j]
            }
        }),
{
}

// ------------------------------------------------------------------ ticks

/// A service that answers its probe is up, at every moment.
pub proof fn answering_is_up(s: services::ServiceView, now: u64)
    ensures
        services::health_of(s, true, now) == Status::Up,
        s.child is Some && s.stop_requested is None ==> ({
            let t = services::ticked(s, Wait::Running { healthy: true }, now).0;
            t.status == Status::Up && t.backoff == 1_000
        }),
{
}

/// A service that has a probe and does not answer it is starting for five seconds after its
/// start, and down at any other time.
pub proof fn silence_is_starting_or_down(s: services::ServiceView, now: u64)
    requires
        s.cfg.port is Some || s.cfg.health_url is Some,
    ensures
        services::health_of(s, false, now) == Status::Starting <==> s.started is Some && now
            < s.started->0 + 5_000,
        services::health_of(s, false, now) == Status::Down <==> s.started is None || now
            >= s.started->0 + 5_000,
{
}

/// A look at a child that runs: one that was asked to stop is left alone for three seconds, then
/// killed and logged; any other gets the status that its probe gives, and nothing else changes
/// but the backoff of one found up.
pub proof fn a_running_child_is_looked_after(s: services::ServiceView, healthy: bool, now: u64)
    requires
        s.child is Some,
    ensures
        ({
            let r = services::ticked(s, Wait::Running { healthy }, now);
            let t = r.0;
            &&& !r.2
            &&& t.child == s.child
            &&& t.cfg == s.cfg
            &&& t.started == s.started
            &&& t.user_stopped == s.user_stopped
            &&& t.restart_pending == s.restart_pending
            &&& t.restart_at == s.restart_at
            &&& match s.stop_requested {
                Some(at) => {
                    &&& t.status == s.status
                    &&& t.backoff == s.backoff
                    &&& r.1 <==> now >= at + 3_000
                    &&& !r.1 ==> t == s
                    &&& r.1 ==> t.stop_requested == None::<u64> && t.logs.len() == s.logs.len() + 1
                        && t.logs.drop_last() == s.logs && t.logs.last()
                        == "[dev-panel] escalated to SIGKILL"@
                },
                None => {
                    &&& !r.1
                    &&& t.stop_requested == None::<u64>
                    &&& t.logs == s.logs
                    &&& t.status == services::health_of(s, healthy, now)
                    &&& t.backoff == (if t.status == Status::Up {
                        1_000
                    } else {
                        s.backoff
                    })
                },
            }
        }),
{
    assert(s.logs.push("[dev-panel] escalated to SIGKILL"@).drop_last() =~= s.logs);
}

/// A child that is seen to exit is gone, and is never killed. A restart that was asked for comes
/// first, then a stop; what is left is a crash, which is logged and, where the service restarts
/// itself, scheduled after the backoff, which doubles up to thirty seconds.
pub proof fn an_exit_is_a_restart_a_stop_or_a_crash(s: services::ServiceView, now: u64)
    requires
        s.child is Some,
        now + s.backoff <= u64::MAX,
        s.backoff <= 30_000,
    ensures
        ({
            let r = services::ticked(s, Wait::Exited, now);
            let t = r.0;
            &&& !r.1
            &&& t.child is None
            &&& t.cfg == s.cfg
            &&& t.started == s.started
            &&& t.stop_requested == s.stop_requested
            &&& t.user_stopped == s.user_stopped
            &&& !t.restart_pending
            &&& r.2 <==> s.restart_pending
            &&& s.restart_pending || s.user_stopped ==> t.logs == s.logs && t.backoff == s.backoff
                && t.restart_at == s.restart_at
            &&& s.restart_pending ==> t.status == s.status
            &&& !s.restart_pending && s.user_stopped ==> t.status == Status::Stopped
            &&& !s.restart_pending && !s.user_stopped ==> {
                &&& t.logs.len() == s.logs.len() + 1
                &&& t.logs.drop_last() == s.logs
                &&& t.logs.last() == "[dev-panel] process exited unexpectedly"@
                &&& !s.cfg.auto_restart ==> t.status == Status::Crashed && t.backoff == s.backoff
                    && t.restart_at == s.restart_at
                &&& s.cfg.auto_restart ==> {
                    &&& t.status == Status::Scheduled
                    &&& t.restart_at is Some
                    &&& t.restart_at->0 == now + s.backoff
                    &&& t.backoff == (if s.backoff <= 15_000 {
                        2 * s.backoff
                    } else {
                        30_000
                    })
                }
            }
        }),
{
    assert(s.logs.push("[dev-panel] process exited unexpectedly"@).drop_last() =~= s.logs);
}

/// A child that could not be asked is logged about and nothing else.
pub proof fn a_failed_wait_is_logged(s: services::ServiceView, e: String, now: u64)
    requires
        s.child is Some,
    ensures
        ({
            let r = services::ticked(s, Wait::Failed(e), now);
            &&& !r.1 && !r.2
            &&& r.0.logs.drop_last() == s.logs
            &&& r.0.logs.len() == s.logs.len() + 1
            &&& r.0.logs.last() == "[dev-panel] wait failed: "@ + e@
            &&& r.0 == (services::ServiceView { logs: r.0.logs, ..s })
        }),
{
    assert(s.logs.push("[dev-panel] wait failed: "@ + e@).drop_last() =~= s.logs);
}

/// A service without a child is left as it is, whatever is seen, and started exactly when a
/// restart is scheduled for now or earlier.
pub proof fn a_service_without_a_child_waits(s: services::ServiceView, wait: Wait, now: u64)
    requires
        s.child is None,
    ensures
        services::ticked(s, wait, now).0 == s,
        !services::ticked(s, wait, now).1,
        services::ticked(s, wait, now).2 <==> s.restart_at is Some && s.restart_at->0 <= now,
{
}

/// A tick keeps the number of services, the stack and whether the session has changed.
pub proof fn a_tick_keeps_the_rest(m: manager::ManagerView, waits: Seq<Wait>, now: u64)
    ensures
        m.tick(waits, now).services.len() == m.services.len(),
        m.tick(waits, now).stack == m.stack,
        m.tick(waits, now).unsaved == m.unsaved,
{
}

/// Children are killed and services started in file order, each at most once.
pub proof fn ticks_act_in_file_order(m: manager::ManagerView, waits: Seq<Wait>, now: u64, n: nat)
    requires
        n <= m.services.len() <= usize::MAX,
    ensures
        forall|k: int| 0 <= k < m.kills(waits, now, n).len() ==> (#[trigger] m.kills(waits, now, n)[k]) < n,
        forall|k: int| 0 <= k < m.starts(waits, now, n).len() ==> (#[trigger] m.starts(waits, now, n)[k]) < n,
        forall|k: int, l: int|
            0 <= k < l < m.kills(waits, now, n).len() ==> (#[trigger] m.kills(waits, now, n)[k]) < (
            #[trigger] m.kills(waits, now, n)[l]),
        forall|k: int, l: int|
            0 <= k < l < m.starts(waits, now, n).len() ==> (#[trigger] m.starts(waits, now, n)[k])
                < (#[trigger] m.starts(waits, now, n)[l]),
    decreases n,
{
    if n > 0 {
        ticks_act_in_file_order(m, waits, now, (n - 1) as nat);
        let killed = m.kills(waits, now, (n - 1) as nat);
        let kills = m.kills(waits, now, n);
        let started = m.starts(waits, now, (n - 1) as nat);
        let starts = m.starts(waits, now, n);
        assert forall|k: int| 0 <= k < kills.len() implies (#[trigger] kills[k]) < n by {
            if k < killed.len() {
                assert(kills[k] == killed[k]);
                assert(killed[k] < n - 1);
            }
        }
        assert forall|k: int| 0 <= k < starts.len() implies (#[trigger] starts[k]) < n by {
            if k < started.len() {
                assert(starts[k] == started[k]);
                assert(started[k] < n - 1);
            }
        }
        assert forall|k: int, l: int| 0 <= k < l < kills.len() implies (#[trigger] kills[k]) < (
        #[trigger] kills[l]) by {
            assert(kills[k] == killed[k]);
            assert(killed[k] < n - 1);
            if l < killed.len() {
                assert(kills[l] == killed[l]);
            }
        }
        assert forall|k: int, l: int| 0 <= k < l < starts.len() implies (#[trigger] starts[k]) < (
        #[trigger] starts[l]) by {
            assert(starts[k] == started[k]);
            assert(started[k] < n - 1);
            if l < started.len() {
                assert(starts[l] == started[l]);
            }
        }
    }
}

// ------------------------------------------------------------------ runs

/// What happens in a run of the manager: ticks, and the starts that they call for.
pub ghost enum Happening {
    Tick { waits: Seq<Wait>, now: u64 },
    Start { spawned: Result<i32, String>, now: u64 },
}

/// The manager after what happened, the starts being those of one service.
pub open spec fn after(m: manager::ManagerView, i: int, run: Seq<Happening>) -> manager::ManagerView
    decreases run.len(),
{
    if run.len() == 0 {
        m
    } else {
        let before = after(m, i, run.drop_last());
        match run.last() {
            Happening::Tick { waits, now } => before.tick(waits, now),
            Happening::Start { spawned, now } => before.tick_start(i, spawned, now),
        }
    }
}

/// Whether a happening is a crash of the service: its child is seen to exit though neither a
/// restart nor a stop was asked for.
pub open spec fn is_crash(m: manager::ManagerView, i: int, h: Happening) -> bool {
    h matches Happening::Tick { waits, .. } && waits[i] is Exited && m.services[i].child is Some
        && !m.services[i].restart_pending && !m.services[i].user_stopped
}

/// Whether a happening finds the service up.
pub open spec fn finds_up(m: manager::ManagerView, i: int, h: Happening) -> bool {
    h matches Happening::Tick { waits, now } && m.services[i].child is Some
        && m.services[i].stop_requested is None && (waits[i] matches Wait::Running { healthy }
        && services::health_of(m.services[i], healthy, now) is Up)
}

/// How often the service has crashed in a run.
pub open spec fn crashes(m: manager::ManagerView, i: int, run: Seq<Happening>) -> nat
    decreases run.len(),
{
    if run.len() == 0 {
        0
    } else {
        crashes(m, i, run.drop_last()) + (if is_crash(
            after(m, i, run.drop_last()),
            i,
            run.last(),
        ) {
            1nat
        } else {
            0nat
        })
    }
}

/// Whether no happening of a run finds the service up.
pub open spec fn never_up(m: manager::ManagerView, i: int, run: Seq<Happening>) -> bool
    decreases run.len(),
{
    run.len() > 0 ==> never_up(m, i, run.drop_last()) && !finds_up(
        after(m, i, run.drop_last()),
        i,
        run.last(),
    )
}

/// Over any run in which a service that restarts itself is never found up, its backoff is what
/// its crashes have brought it to: one second doubled once for each, thirty seconds at most.
/// Starts do not put it back.
pub proof fn crash_loops_slow_down(m: manager::ManagerView, i: int, run: Seq<Happening>, n: nat)
    requires
        0 <= i < m.services.len(),
        m.services[i].cfg.auto_restart,
        m.services[i].backoff == laws::backoff_after(n),
        never_up(m, i, run),
    ensures
        after(m, i, run).services.len() == m.services.len(),
        after(m, i, run).services[i].cfg == m.services[i].cfg,
        after(m, i, run).services[i].backoff == laws::backoff_after(n + crashes(m, i, run)),
    decreases run.len(),
{
    if run.len() > 0 {
        crash_loops_slow_down(m, i, run.drop_last(), n);
        let before = after(m, i, run.drop_last());
        let k = n + crashes(m, i, run.drop_last());
        laws::waits_are_bounded(k);
        match run.last() {
            Happening::Tick { waits, now } => {},
            Happening::Start { spawned, now } => {
                an_automatic_start_keeps_the_backoff(before, i, spawned, now);
            },
        }
    }
}

/// The restart after a crash in such a run is scheduled as long after it as the crashes before it
/// say: one second after the first, two after the second, four after the third, and never more
/// than thirty.
pub proof fn crash_loops_are_scheduled(
    m: manager::ManagerView,
    i: int,
    run: Seq<Happening>,
    waits: Seq<Wait>,
    now: u64,
)
    requires
        0 <= i < m.services.len(),
        m.services[i].cfg.auto_restart,
        m.services[i].backoff == 1_000,
        never_up(m, i, run),
        is_crash(after(m, i, run), i, (Happening::Tick { waits, now })),
        now + 30_000 <= u64::MAX,
    ensures
        ({
            let t = after(m, i, run).tick(waits, now).services[i];
            &&& t.status == Status::Scheduled
            &&& t.restart_at is Some
            &&& t.restart_at->0 == now + laws::backoff_after(crashes(m, i, run))
        }),
        laws::backoff_after(0) == 1_000,
        laws::backoff_after(1) == 2_000,
        laws::backoff_after(2) == 4_000,
        laws::backoff_after(3) == 8_000,
        laws::backoff_after(4) == 16_000,
        forall|k: nat| k >= 5 ==> #[trigger] laws::backoff_after(k) == 30_000,
{
    reveal_with_fuel(laws::backoff_after, 6);
    crash_loops_slow_down(m, i, run, 0);
    laws::waits_are_bounded(crashes(m, i, run));
    assert forall|k: nat| k >= 5 implies #[trigger] laws::backoff_after(k) == 30_000 by {
        laws::waits_reach_the_cap(k);
    }
}

// ------------------------------------------------------------------ logs and status

/// The log keeps the last thousand lines in order: a new line stands at its end, and when it is
/// full the oldest line makes room.
pub proof fn logs_keep_the_last_lines(logs: Seq<Seq<char>>, line: Seq<char>)
    ensures
        ({
            let after = services::logged(logs, line);
            &&& after.len() > 0 && after.last() == line
            &&& logs.len() < 1_000 ==> after.len() == logs.len() + 1 && after.drop_last() == logs
            &&& logs.len() >= 1_000 ==> after.len() == logs.len() && forall|k: int|
                0 <= k < logs.len() - 1 ==> #[trigger] after[k] == logs[k + 1]
        }),
{
    if logs.len() < 1_000 {
        assert(services::logged(logs, line).drop_last() =~= logs);
    }
}

/// A service of which nothing was started is stopped, has no child, an empty log, the shortest
/// backoff and nothing pending.
pub proof fn services_begin_stopped(
    cfgs: Seq<services::ServiceConfigView>,
    stack: Option<Seq<Seq<char>>>,
    i: int,
)
    requires
        0 <= i < cfgs.len(),
    ensures
        ({
            let m = manager::loaded(cfgs, stack);
            let s = m.services[i];
            &&& m.services.len() == cfgs.len()
            &&& m.stack == stack
            &&& !m.unsaved
            &&& s.cfg == cfgs[i]
            &&& s.status == Status::Stopped
            &&& s.logs.len() == 0
            &&& s.child is None && s.started is None && s.stop_requested is None
            &&& !s.user_stopped && !s.restart_pending
            &&& s.backoff == 1_000
            &&& s.restart_at is None
        }),
{
}

/// What is shown as the status tells how a service that is up was found so, and otherwise only
/// depends on its status, no two of which look alike.
pub proof fn statuses_are_told_apart(s: services::ServiceView, t: services::ServiceView)
    ensures
        s.status == Status::Up && s.cfg.health_url is Some ==> services::status_text_of(s)
            == "up (200)"@,
        s.status == Status::Up && s.cfg.health_url is None && s.cfg.port is Some
            ==> services::status_text_of(s) == "up (port)"@,
        s.status == Status::Up && s.cfg.health_url is None && s.cfg.port is None
            ==> services::status_text_of(s) == "up"@,
        s.status == Status::Stopped ==> services::status_text_of(s) == "stopped"@,
        s.status == Status::Starting ==> services::status_text_of(s) == "starting"@,
        s.status == Status::Down ==> services::status_text_of(s) == "down"@,
        s.status == Status::Crashed ==> services::status_text_of(s) == "crashed"@,
        s.status == Status::Scheduled ==> services::status_text_of(s) == "restarting"@,
        services::status_label(s.status) == services::status_label(t.status) ==> s.status
            == t.status,
{
    reveal_strlit("stopped");
    reveal_strlit("starting");
    reveal_strlit("up");
    reveal_strlit("down");
    reveal_strlit("crashed");
    reveal_strlit("restarting");
    assert("stopped"@.len() == 7 && "stopped"@[2] == 'o');
    assert("starting"@.len() == 8);
    assert("up"@.len() == 2);
    assert("down"@.len() == 4);
    assert("crashed"@.len() == 7 && "crashed"@[2] == 'a');
    assert("restarting"@.len() == 10);
}

// ------------------------------------------------------------------ names and orders

/// A name stands for the first service that has it, and for none when no service has it.
pub proof fn a_name_is_the_first_of_it(m: manager::ManagerView, name: Seq<char>, from: int)
    requires
        0 <= from,
    ensures
        match m.find(name, from) {
            Some(i) => from <= i < m.services.len() && m.services[i].cfg.name == name && forall|
                j: int,
            |
                from <= j < i ==> (#[trigger] m.services[j]).cfg.name != name,
            None => forall|j: int|
                from <= j < m.services.len() ==> (#[trigger] m.services[j]).cfg.name != name,
        },
    decreases m.services.len() - from,
{
    if from < m.services.len() && m.services[from].cfg.name != name {
        a_name_is_the_first_of_it(m, name, from + 1);
    }
}

/// The session names the services that run and were not stopped, each one, in file order.
pub proof fn sessions_are_in_file_order(m: manager::ManagerView, n: nat) -> (at: Seq<int>)
    requires
        n <= m.services.len(),
    ensures
        at.len() == m.meant_to_run(n).len(),
        forall|k: int|
            0 <= k < at.len() ==> 0 <= #[trigger] at[k] < n && m.services[at[k]].cfg.name
                == m.meant_to_run(n)[k] && m.services[at[k]].child is Some
                && !m.services[at[k]].user_stopped,
        forall|k: int, l: int| 0 <= k < l < at.len() ==> #[trigger] at[k] < #[trigger] at[l],
        forall|i: int|
            0 <= i < n && (#[trigger] m.services[i]).child is Some && !m.services[i].user_stopped
                ==> at.contains(i),
    decreases n,
{
    if n == 0 {
        Seq::empty()
    } else {
        let before = sessions_are_in_file_order(m, (n - 1) as nat);
        let s = m.services[n - 1];
        if s.child is Some && !s.user_stopped {
            let at = before.push(n - 1);
            assert forall|i: int|
                0 <= i < n && (#[trigger] m.services[i]).child is Some
                    && !m.services[i].user_stopped implies at.contains(i) by {
                if i < n - 1 {
                    assert(before.contains(i));
                    let k = choose|k: int| 0 <= k < before.len() && before[k] == i;
                    assert(at[k] == i);
                } else {
                    assert(at[before.len() as int] == i);
                }
            }
            at
        } else {
            before
        }
    }
}

/// A listed stack is started in the order of the list: its services stand in the order in which
/// the list first names them, and every name of a service is there.
pub proof fn stacks_follow_the_list(m: manager::ManagerView, names: Seq<Seq<char>>) -> (at: Seq<int>)
    requires
        m.services.len() <= usize::MAX,
    ensures
        at.len() == m.named(names).len(),
        forall|k: int|
            0 <= k < at.len() ==> 0 <= #[trigger] at[k] < names.len() && m.find(names[at[k]], 0)
                == Some(m.named(names)[k] as int),
        forall|k: int, l: int| 0 <= k < l < at.len() ==> #[trigger] at[k] < #[trigger] at[l],
        forall|j: int|
            0 <= j < names.len() && m.find(#[trigger] names[j], 0) is Some ==> m.named(
                names,
            ).contains(m.find(names[j], 0)->0 as usize),
        m.stack == Some(names) ==> m.stack_order() == m.named(names),
    decreases names.len(),
{
    if names.len() == 0 {
        Seq::empty()
    } else {
        let rest = names.drop_last();
        let before = stacks_follow_the_list(m, rest);
        let b = m.named(rest);
        let all = m.named(names);
        a_name_is_the_first_of_it(m, names.last(), 0);
        let at = match m.find(names.last(), 0) {
            Some(i) => if b.contains(i as usize) {
                before
            } else {
                before.push(names.len() - 1)
            },
            None => before,
        };
        assert forall|k: int| 0 <= k < at.len() implies 0 <= #[trigger] at[k] < names.len() && m.find(
            names[at[k]],
            0,
        ) == Some(all[k] as int) by {
            if k < before.len() {
                assert(at[k] == before[k]);
                assert(rest[before[k]] == names[before[k]]);
                assert(all[k] == b[k]);
            }
        }
        assert forall|j: int|
            0 <= j < names.len() && m.find(
                #[trigger] names[j],
                0,
            ) is Some implies all.contains(m.find(names[j], 0)->0 as usize) by {
            let x = m.find(names[j], 0)->0 as usize;
            if j < rest.len() {
                assert(rest[j] == names[j]);
                assert(b.contains(x));
                let k = choose|k: int| 0 <= k < b.len() && b[k] == x;
                assert(all[k] == x);
            } else if b.contains(x) {
                let k = choose|k: int| 0 <= k < b.len() && b[k] == x;
                assert(all[k] == x);
            } else {
                assert(all[b.len() as int] == x);
            }
        }
        at
    }
}

/// What is said of a service of a saved session.
pub proof fn resuming_is_told(m: manager::ManagerView, name: Seq<char>, e: String, pid: i32, now: u64)
    ensures
        m.find(name, 0) is None ==> m.resume_text(name, Ok::<i32, String>(pid))
            == "session had unknown service "@ + name && m.resume(
            name,
            Ok::<i32, String>(pid),
            now,
        ) == m,
        m.find(name, 0) is Some ==> m.resume_text(name, Ok::<i32, String>(pid)) == "resumed "@
            + name,
        m.find(name, 0) is Some && m.services[m.find(name, 0)->0].child is None ==> m.resume_text(
            name,
            Err::<i32, String>(e),
        ) == "resume "@ + name + " failed: "@ + e@ && m.resume(
            name,
            Ok::<i32, String>(pid),
            now,
        ).services[m.find(name, 0)->0].child == Some(pid),
{
    a_name_is_the_first_of_it(m, name, 0);
}

// ------------------------------------------------------------------ probes

/// A service is probed while it runs and was not asked to stop: over its health URL when it has
/// one, else at its port when it has one, and otherwise not at all.
pub proof fn probes_ask_the_right_place(m: manager::ManagerView, i: int)
    requires
        0 <= i < m.services.len(),
    ensures
        ({
            let s = m.services[i];
            let asked = s.child is Some && s.stop_requested is None;
            &&& !asked ==> m.probe(i) == manager::ProbeView::Nothing
            &&& asked && s.cfg.health_url is Some && health::url_target(s.cfg.health_url->0) is Some
                ==> m.probe(i) == manager::ProbeView::Http(
                health::url_target(s.cfg.health_url->0)->0,
            )
            &&& asked && s.cfg.health_url is Some && health::url_target(s.cfg.health_url->0) is None
                ==> m.probe(i) == manager::ProbeView::Unsupported
            &&& asked && s.cfg.health_url is None && s.cfg.port is Some ==> m.probe(i)
                == manager::ProbeView::Tcp(s.cfg.port->0)
            &&& asked && s.cfg.health_url is None && s.cfg.port is None ==> m.probe(i)
                == manager::ProbeView::Nothing
        }),
{
}

} // verus!
