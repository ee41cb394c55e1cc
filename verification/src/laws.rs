//! What holds of the panel as a whole, over any run of it.
use vstd::prelude::*;
use crate::actions;
use crate::app;
use crate::confirm;
use crate::docker;
use crate::health;
use crate::manager;
use crate::ports;
use crate::quick;
use crate::rows;
use crate::services;
use crate::services::Wait;
use crate::split;
use crate::system;
use crate::watch;

verus! {

// ------------------------------------------------------------------ lifecycles

/// The wait before the restart that follows `n` crashes in a row.
pub open spec fn backoff_after(n: nat) -> nat
    decreases n,
{
    if n == 0 {
        services::BACKOFF_INITIAL as nat
    } else if 2 * backoff_after((n - 1) as nat) <= services::BACKOFF_MAX {
        2 * backoff_after((n - 1) as nat)
    } else {
        services::BACKOFF_MAX as nat
    }
}

/// A crash of a service that restarts itself schedules the restart after the wait that its
/// crashes so far have brought it to, and the next wait is twice as long, thirty seconds at
/// most.
pub proof fn crashes_back_off(s: services::ServiceView, now: u64, n: nat)
    requires
        s.child is Some,
        s.cfg.auto_restart,
        !s.restart_pending,
        !s.user_stopped,
        s.backoff == backoff_after(n),
        now + backoff_after(n) <= u64::MAX,
    ensures
        ({
            let t = services::ticked(s, Wait::Exited, now);
            &&& !t.1 && !t.2
            &&& t.0.status is Scheduled
            &&& t.0.child is None
            &&& t.0.restart_at == Some((now + backoff_after(n)) as u64)
            &&& t.0.backoff == backoff_after(n + 1)
        }),
{
    waits_are_bounded(n);
}

/// No wait is shorter than a second or longer than thirty, and no wait is shorter than the one
/// before.
pub proof fn waits_are_bounded(n: nat)
    ensures
        services::BACKOFF_INITIAL <= backoff_after(n) <= services::BACKOFF_MAX,
        backoff_after(n) <= backoff_after(n + 1),
    decreases n,
{
    if n > 0 {
        waits_are_bounded((n - 1) as nat);
    }
}

/// From the sixth crash in a row on the wait is thirty seconds.
pub proof fn waits_reach_the_cap(n: nat)
    requires
        n >= 5,
    ensures
        backoff_after(n) == services::BACKOFF_MAX,
    decreases n,
{
    if n == 5 {
        reveal_with_fuel(backoff_after, 6);
    } else {
        waits_reach_the_cap((n - 1) as nat);
    }
}

/// A service that is found up starts over with the shortest wait.
pub proof fn health_resets_the_backoff(s: services::ServiceView, healthy: bool, now: u64)
    requires
        s.child is Some,
        s.stop_requested is None,
        services::health_of(s, healthy, now) is Up,
    ensures
        services::ticked(s, Wait::Running { healthy }, now).0.backoff == backoff_after(0),
{
}

/// A service is started by a tick only if a restart of it was asked for or it is configured to
/// restart itself.
pub proof fn nothing_restarts_uninvited(s: services::ServiceView, wait: Wait, now: u64)
    requires
        services::service_wf(s),
        services::ticked(s, wait, now).2,
    ensures
        s.restart_pending || s.cfg.auto_restart,
        services::ticked(s, wait, now).0.child is None,
{
}

/// A scheduled restart comes when its wait is over, and not before.
pub proof fn restarts_come_when_due(s: services::ServiceView, wait: Wait, now: u64)
    requires
        s.child is None,
        s.restart_at is Some,
    ensures
        services::ticked(s, wait, now).2 <==> now >= s.restart_at->0,
        services::ticked(s, wait, now).0 == s,
{
}

/// A service that does not run and has no restart scheduled is left as it is by every tick.
pub proof fn idle_services_stay_idle(s: services::ServiceView, wait: Wait, now: u64)
    requires
        s.child is None,
        s.restart_at is None,
    ensures
        !services::ticked(s, wait, now).1,
        !services::ticked(s, wait, now).2,
        services::ticked(s, wait, now).0 == s,
{
}

/// A service after a number of ticks, given what was seen of its child at each and when.
pub open spec fn after_ticks(
    s: services::ServiceView,
    waits: Seq<Wait>,
    times: Seq<u64>,
    n: nat,
) -> services::ServiceView
    decreases n,
{
    if n == 0 {
        s
    } else {
        services::ticked(
            after_ticks(s, waits, times, (n - 1) as nat),
            waits[n - 1],
            times[n - 1],
        ).0
    }
}

/// A service that its user stopped ends up stopped and is never started again by itself: after
/// any number of ticks no tick starts it, and once its child has exited it is stopped, with no
/// restart scheduled. The tick that sees the exit adds nothing to the log and leaves the backoff
/// as it is, also where the service is configured to restart itself.
pub proof fn stopped_services_stay_stopped(
    s: services::ServiceView,
    sent: Result<i32, String>,
    at: u64,
    waits: Seq<Wait>,
    times: Seq<u64>,
    n: nat,
    wait: Wait,
    now: u64,
)
    requires
        s.child is Some,
        !s.restart_pending,
    ensures
        ({
            let t = after_ticks(services::stopped(s, sent, at), waits, times, n);
            &&& t.user_stopped
            &&& !t.restart_pending
            &&& t.restart_at is None
            &&& t.child is None ==> t.status is Stopped
            &&& !services::ticked(t, wait, now).2
            &&& t.child is Some && wait is Exited ==> services::ticked(t, wait, now).0 == (
            services::ServiceView { child: None, status: services::Status::Stopped, ..t })
            &&& t.child is None ==> services::ticked(t, wait, now).0 == t
        }),
    decreases n,
{
    if n > 0 {
        stopped_services_stay_stopped(
            s,
            sent,
            at,
            waits,
            times,
            (n - 1) as nat,
            waits[n - 1],
            times[n - 1],
        );
    }
}

/// A tick acts on each service by itself: it starts exactly the services that their own state
/// and child say, each once, and kills exactly the children that they say.
pub proof fn ticks_act_on_each(m: manager::ManagerView, waits: Seq<Wait>, now: u64, n: nat, i: int)
    requires
        0 <= i < n <= m.services.len(),
        m.services.len() <= usize::MAX,
    ensures
        m.tick(waits, now).services[i] == services::ticked(m.services[i], waits[i], now).0,
        m.starts(waits, now, n).contains(i as usize) <==> services::ticked(
            m.services[i],
            waits[i],
            now,
        ).2,
        m.kills(waits, now, n).contains(i as usize) <==> services::ticked(
            m.services[i],
            waits[i],
            now,
        ).1,
        m.starts(waits, now, n).no_duplicates(),
        m.kills(waits, now, n).no_duplicates(),
{
    lemma_starts(m, waits, now, n);
    lemma_kills(m, waits, now, n);
}

proof fn lemma_starts(m: manager::ManagerView, waits: Seq<Wait>, now: u64, n: nat)
    requires
        n <= m.services.len(),
        m.services.len() <= usize::MAX,
    ensures
        forall|x: int|
            0 <= x < n ==> (m.starts(waits, now, n).contains(x as usize) <==> #[trigger]
            services::ticked(m.services[x], waits[x], now).2),
        forall|k: int|
            0 <= k < m.starts(waits, now, n).len() ==> (#[trigger] m.starts(waits, now, n)[k]) < n,
        m.starts(waits, now, n).no_duplicates(),
    decreases n,
{
    if n > 0 {
        lemma_starts(m, waits, now, (n - 1) as nat);
        let before = m.starts(waits, now, (n - 1) as nat);
        let after = m.starts(waits, now, n);
        lemma_grown(before, after, (n - 1) as usize);
        assert forall|x: int| 0 <= x < n implies (after.contains(x as usize) <==> #[trigger]
        services::ticked(m.services[x], waits[x], now).2) by {
            if x < n - 1 {
                assert(before.contains(x as usize) <==> services::ticked(
                    m.services[x],
                    waits[x],
                    now,
                ).2);
            }
        }
    }
}

proof fn lemma_kills(m: manager::ManagerView, waits: Seq<Wait>, now: u64, n: nat)
    requires
        n <= m.services.len(),
        m.services.len() <= usize::MAX,
    ensures
        forall|x: int|
            0 <= x < n ==> (m.kills(waits, now, n).contains(x as usize) <==> #[trigger]
            services::ticked(m.services[x], waits[x], now).1),
        forall|k: int|
            0 <= k < m.kills(waits, now, n).len() ==> (#[trigger] m.kills(waits, now, n)[k]) < n,
        m.kills(waits, now, n).no_duplicates(),
    decreases n,
{
    if n > 0 {
        lemma_kills(m, waits, now, (n - 1) as nat);
        let before = m.kills(waits, now, (n - 1) as nat);
        let after = m.kills(waits, now, n);
        lemma_grown(before, after, (n - 1) as usize);
        assert forall|x: int| 0 <= x < n implies (after.contains(x as usize) <==> #[trigger]
        services::ticked(m.services[x], waits[x], now).1) by {
            if x < n - 1 {
                assert(before.contains(x as usize) <==> services::ticked(
                    m.services[x],
                    waits[x],
                    now,
                ).1);
            }
        }
    }
}

/// What a list of smaller numbers holds with one more number behind it.
proof fn lemma_grown(before: Seq<usize>, after: Seq<usize>, x: usize)
    requires
        forall|k: int| 0 <= k < before.len() ==> (#[trigger] before[k]) < x,
        before.no_duplicates(),
        after == before || after == before.push(x),
    ensures
        after.no_duplicates(),
        forall|y: usize| y < x ==> (#[trigger] after.contains(y) <==> before.contains(y)),
        after.contains(x) <==> after == before.push(x),
{
    assert forall|y: usize| y < x implies (#[trigger] after.contains(y) <==> before.contains(
        y,
    )) by {
        if after.contains(y) {
            let k = choose|k: int| 0 <= k < after.len() && after[k] == y;
            assert(before[k] == y);
        }
        if before.contains(y) {
            let k = choose|k: int| 0 <= k < before.len() && before[k] == y;
            assert(after[k] == y);
        }
    }
    if after == before.push(x) {
        assert(after[before.len() as int] == x);
    }
    if after.contains(x) {
        let k = choose|k: int| 0 <= k < after.len() && after[k] == x;
        if k < before.len() {
            assert(before[k] < x);
        }
    }
}

/// The child of a service is killed only when it was asked to stop three seconds ago or more.
pub proof fn children_have_time_to_stop(s: services::ServiceView, wait: Wait, now: u64)
    requires
        services::ticked(s, wait, now).1,
    ensures
        s.child is Some,
        s.stop_requested is Some,
        now >= s.stop_requested->0 + services::STOP_ESCALATE_AFTER,
{
}

/// A restart of a running service stops it, and starts it once its child has exited.
pub proof fn restarts_come_back(
    m: manager::ManagerView,
    i: int,
    reply: Result<i32, String>,
    at: u64,
    now: u64,
)
    requires
        0 <= i < m.services.len(),
        m.services[i].child is Some,
    ensures
        m.restart(i, reply, at).services[i].child == m.services[i].child,
        m.restart(i, reply, at).services[i].cfg == m.services[i].cfg,
        m.restart(i, reply, at).services[i].stop_requested == Some(at),
        m.restart(i, reply, at).services[i].restart_pending,
        m.restart(i, reply, at).services[i].restart_at is None,
        services::ticked(m.restart(i, reply, at).services[i], Wait::Exited, now).2,
{
}

/// A restart that was asked for waits for the exit, however many ticks that takes.
pub proof fn pending_restarts_wait(
    s: services::ServiceView,
    waits: Seq<Wait>,
    times: Seq<u64>,
    n: nat,
)
    requires
        s.child is Some,
        s.restart_pending,
        s.restart_at is None,
        n <= waits.len(),
        forall|k: int| 0 <= k < n ==> !((#[trigger] waits[k]) is Exited),
    ensures
        ({
            let t = after_ticks(s, waits, times, n);
            &&& t.child == s.child
            &&& t.cfg == s.cfg
            &&& t.restart_pending
            &&& t.restart_at is None
        }),
    decreases n,
{
    if n > 0 {
        pending_restarts_wait(s, waits, times, (n - 1) as nat);
        assert(!(waits[n - 1] is Exited));
    }
}

/// A restart that was asked for is carried out once: the tick that sees the exit starts the
/// service, with its configured command. When that succeeds the service is starting anew, with
/// no restart or stop pending; when it fails the service has crashed and its log says so. Either
/// way no later tick starts it on account of that restart.
pub proof fn restarts_run_to_their_end(
    m: manager::ManagerView,
    i: int,
    waits: Seq<Wait>,
    now: u64,
    spawned: Result<i32, String>,
    when: u64,
    wait: Wait,
    later: u64,
)
    requires
        0 <= i < m.services.len(),
        m.services.len() <= usize::MAX,
        m.services[i].child is Some,
        m.services[i].restart_pending,
        m.services[i].restart_at is None,
        waits.len() == m.services.len(),
        waits[i] is Exited,
    ensures
        ({
            let cfg = m.services[i].cfg;
            let ticked = m.tick(waits, now);
            let t = ticked.tick_start(i, spawned, when).services[i];
            &&& m.starts(waits, now, m.services.len()).contains(i as usize)
            &&& m.starts(waits, now, m.services.len()).no_duplicates()
            &&& ticked.launch(i) == Some(
                manager::LaunchView { service: i as usize, cmd: cfg.cmd, cwd: cfg.cwd },
            )
            &&& t.cfg == cfg
            &&& !t.restart_pending
            &&& !services::ticked(t, wait, later).2
            &&& match spawned {
                Ok(pid) => {
                    &&& t.child == Some(pid)
                    &&& t.status is Starting
                    &&& t.started == Some(when)
                    &&& !t.user_stopped
                    &&& t.stop_requested is None
                },
                Err(e) => {
                    &&& t.child is None
                    &&& t.status is Crashed
                    &&& t.logs.last() == "[dev-panel] restart failed: "@ + e@
                },
            }
        }),
{
    ticks_act_on_each(m, waits, now, m.services.len(), i);
}

/// Starting a service that runs does nothing.
pub proof fn starting_twice_is_starting_once(
    m: manager::ManagerView,
    i: int,
    first: Result<i32, String>,
    second: Result<i32, String>,
    t1: u64,
    t2: u64,
)
    requires
        0 <= i < m.services.len(),
        first is Ok,
    ensures
        m.start(i, first, t1).start(i, second, t2) == m.start(i, first, t1),
        m.start(i, first, t1).start_error(i, second) is None,
{
}

/// What happens to one service does not touch the others.
pub proof fn services_are_independent(
    m: manager::ManagerView,
    i: int,
    j: int,
    reply: Result<i32, String>,
    now: u64,
)
    requires
        0 <= i < m.services.len(),
        0 <= j < m.services.len(),
        i != j,
    ensures
        m.start(i, reply, now).services[j] == m.services[j],
        m.stop(i, reply, now).services[j] == m.services[j],
        m.restart(i, reply, now).services[j] == m.services[j],
        m.tick_start(i, reply, now).services[j] == m.services[j],
{
}

/// A line of output never makes a log longer than it may be.
pub proof fn logs_are_capped(logs: Seq<Seq<char>>, line: Seq<char>)
    ensures
        services::logged(logs, line).last() == line,
        logs.len() <= services::LOG_CAP ==> services::logged(logs, line).len() <= services::LOG_CAP,
        logs.len() >= services::LOG_CAP ==> services::logged(logs, line).len() == logs.len(),
{
}

// ------------------------------------------------------------------ sessions

/// Whether a name can be written to the session and read back: it is not empty, has no white
/// space at its ends and no line feed in it.
pub open spec fn is_line(name: Seq<char>) -> bool {
    name.len() > 0 && !split::is_space(name[0]) && !split::is_space(name.last()) && !name.contains(
        '\n',
    )
}

proof fn lemma_names_survive(names: Seq<Seq<char>>)
    requires
        forall|i: int| 0 <= i < names.len() ==> is_line(#[trigger] names[i]),
    ensures
        split::filter_map(
            names,
            |l: Seq<char>|
                if split::trim(l).len() == 0 {
                    None
                } else {
                    Some(split::trim(l))
                },
        ) == names,
    decreases names.len(),
{
    if names.len() > 0 {
        let rest = names.drop_last();
        assert forall|i: int| 0 <= i < rest.len() implies is_line(#[trigger] rest[i]) by {
            assert(rest[i] == names[i]);
        }
        lemma_names_survive(rest);
        assert(is_line(names[names.len() - 1]));
        split::solid_ends_are_kept(names.last());
        assert(rest.push(names.last()) =~= names);
    }
}

/// What is written to the session is what is read back from it.
pub proof fn sessions_survive(names: Seq<Seq<char>>)
    requires
        names.len() > 0,
        forall|i: int| 0 <= i < names.len() ==> is_line(#[trigger] names[i]),
    ensures
        manager::session_lines(split::join(names, "\n"@)) == names,
{
    reveal_strlit("\n");
    assert("\n"@ =~= seq!['\n']);
    let saved = split::join(names, "\n"@);
    assert forall|i: int| 0 <= i < names.len() implies !(#[trigger] names[i]).contains('\n') by {
        assert(is_line(names[i]));
    }
    split::join_then_split(names, '\n');
    assert(is_line(names[names.len() - 1]));
    assert forall|i: int| 0 <= i < names.len() implies split::strip_return(#[trigger] names[i])
        == names[i] by {
        assert(is_line(names[i]));
    }
    assert(split::lines(saved) =~= names);
    lemma_names_survive(names);
}

proof fn lemma_meant_to_run_are_services(m: manager::ManagerView, n: nat, k: int)
    requires
        n <= m.services.len(),
        0 <= k < m.meant_to_run(n).len(),
    ensures
        exists|i: int|
            0 <= i < n && (#[trigger] m.services[i]).cfg.name == m.meant_to_run(n)[k]
                && m.services[i].child is Some && !m.services[i].user_stopped,
    decreases n,
{
    let s = m.services[n - 1];
    let before = m.meant_to_run((n - 1) as nat);
    if k < before.len() {
        lemma_meant_to_run_are_services(m, (n - 1) as nat, k);
    } else {
        assert(m.services[n - 1].cfg.name == m.meant_to_run(n)[k]);
    }
}

proof fn lemma_find_is_first(m: manager::ManagerView, name: Seq<char>, from: int, i: int)
    requires
        0 <= from <= i < m.services.len(),
        m.services[i].cfg.name == name,
    ensures
        m.find(name, from) matches Some(j) && from <= j <= i && m.services[j].cfg.name == name,
    decreases i - from,
{
    if m.services[from].cfg.name != name {
        lemma_find_is_first(m, name, from + 1, i);
    }
}

/// The next run resumes what this one had running: the session, read back, names exactly the
/// services that run and were not stopped by the user, in order, and a manager of the same
/// configuration finds each of them by its name.
pub proof fn sessions_resume_what_ran(m: manager::ManagerView, next: manager::ManagerView)
    requires
        m.session() is Some,
        forall|i: int| 0 <= i < m.services.len() ==> is_line((#[trigger] m.services[i]).cfg.name),
        next.services.len() == m.services.len(),
        forall|i: int|
            0 <= i < m.services.len() ==> (#[trigger] next.services[i]).cfg == m.services[i].cfg,
    ensures
        manager::session_lines(m.session()->0) == m.meant_to_run(m.services.len()),
        forall|k: int|
            0 <= k < m.meant_to_run(m.services.len()).len() ==> {
                let name = #[trigger] m.meant_to_run(m.services.len())[k];
                next.find(name, 0) matches Some(i) && 0 <= i < next.services.len()
                    && next.services[i].cfg.name == name
            },
{
    let names = m.meant_to_run(m.services.len());
    assert forall|k: int| 0 <= k < names.len() implies is_line(#[trigger] names[k]) && (next.find(
        names[k],
        0,
    ) matches Some(i) && 0 <= i < next.services.len() && next.services[i].cfg.name == names[k]) by {
        lemma_meant_to_run_are_services(m, m.services.len(), k);
        let i = choose|i: int|
            0 <= i < m.services.len() && (#[trigger] m.services[i]).cfg.name == names[k]
                && m.services[i].child is Some && !m.services[i].user_stopped;
        assert(next.services[i].cfg == m.services[i].cfg);
        lemma_find_is_first(next, names[k], 0, i);
    }
    sessions_survive(names);
}

/// A name that only one service has stands for that service.
pub proof fn names_stand_for_their_service(m: manager::ManagerView, i: int)
    requires
        0 <= i < m.services.len(),
        forall|j: int|
            0 <= j < m.services.len() && j != i ==> (#[trigger] m.services[j]).cfg.name
                != m.services[i].cfg.name,
    ensures
        m.find(m.services[i].cfg.name, 0) == Some(i),
{
    lemma_find_is_first(m, m.services[i].cfg.name, 0, i);
}

/// The manager after the services of a saved session were to be started, one after the other.
pub open spec fn resume_each(
    m: manager::ManagerView,
    names: Seq<Seq<char>>,
    replies: Seq<Result<i32, String>>,
    now: u64,
) -> manager::ManagerView
    decreases names.len(),
{
    if names.len() == 0 {
        m
    } else {
        resume_each(m, names.drop_last(), replies, now).resume(
            names.last(),
            replies[names.len() - 1],
            now,
        )
    }
}

/// Whether two services never have the same name.
pub open spec fn names_differ(m: manager::ManagerView) -> bool {
    forall|i: int, j: int|
        0 <= i < m.services.len() && 0 <= j < m.services.len() && i != j ==> (
        #[trigger] m.services[i]).cfg.name != (#[trigger] m.services[j]).cfg.name
}

/// What is said of the services of a saved session, one after the other.
pub open spec fn resume_messages(
    m: manager::ManagerView,
    names: Seq<Seq<char>>,
    replies: Seq<Result<i32, String>>,
    now: u64,
) -> Seq<Seq<char>>
    decreases names.len(),
{
    if names.len() == 0 {
        Seq::empty()
    } else {
        resume_messages(m, names.drop_last(), replies, now).push(
            resume_each(m, names.drop_last(), replies, now).resume_text(
                names.last(),
                replies[names.len() - 1],
            ),
        )
    }
}

/// The message for each of a list of services that were resumed.
pub open spec fn resumed_texts(names: Seq<Seq<char>>) -> Seq<Seq<char>> {
    Seq::new(names.len(), |k: int| "resumed "@ + names[k])
}

proof fn lemma_resumed_so_far(
    m: manager::ManagerView,
    next: manager::ManagerView,
    replies: Seq<Result<i32, String>>,
    now: u64,
    n: nat,
)
    requires
        n <= m.services.len(),
        names_differ(m),
        next.services.len() == m.services.len(),
        forall|i: int|
            0 <= i < m.services.len() ==> (#[trigger] next.services[i]).cfg == m.services[i].cfg
                && next.services[i].child is None,
        forall|k: int| 0 <= k < replies.len() ==> (#[trigger] replies[k]) is Ok,
        replies.len() >= m.meant_to_run(n).len(),
    ensures
        ({
            let after = resume_each(next, m.meant_to_run(n), replies, now);
            &&& after.services.len() == m.services.len()
            &&& forall|i: int|
                0 <= i < m.services.len() ==> (#[trigger] after.services[i]).cfg
                    == m.services[i].cfg && (after.services[i].child is Some <==> i < n
                    && m.services[i].child is Some && !m.services[i].user_stopped)
        }),
        resume_messages(next, m.meant_to_run(n), replies, now) == resumed_texts(m.meant_to_run(n)),
    decreases n,
{
    let names = m.meant_to_run(n);
    if n > 0 {
        let before = m.meant_to_run((n - 1) as nat);
        lemma_resumed_so_far(m, next, replies, now, (n - 1) as nat);
        let s = m.services[n - 1];
        if s.child is Some && !s.user_stopped {
            assert(names.drop_last() =~= before);
            let mid = resume_each(next, before, replies, now);
            assert(mid.services[n - 1].cfg == s.cfg);
            assert forall|j: int| 0 <= j < mid.services.len() && j != n - 1 implies (
            #[trigger] mid.services[j]).cfg.name != mid.services[n - 1].cfg.name by {
                assert(mid.services[j].cfg == m.services[j].cfg);
            }
            names_stand_for_their_service(mid, n - 1);
            assert(replies[names.len() - 1] is Ok);
            assert(resumed_texts(before).push("resumed "@ + names.last()) =~= resumed_texts(
                names,
            ));
        }
    }
    assert(resume_messages(next, names, replies, now) =~= resumed_texts(names));
}

/// What ran is what runs again: when the names differ and every start succeeds, a fresh manager
/// of the same configuration runs exactly the services that ran and were not stopped, once it
/// has resumed the session that was saved, and says of each of them, in order, that it was
/// resumed. Where no service was to run there is no session and nothing is started.
pub proof fn sessions_bring_back_what_ran(
    m: manager::ManagerView,
    next: manager::ManagerView,
    replies: Seq<Result<i32, String>>,
    now: u64,
)
    requires
        names_differ(m),
        forall|i: int| 0 <= i < m.services.len() ==> is_line((#[trigger] m.services[i]).cfg.name),
        next.services.len() == m.services.len(),
        forall|i: int|
            0 <= i < m.services.len() ==> (#[trigger] next.services[i]).cfg == m.services[i].cfg
                && next.services[i].child is None,
        replies.len() == manager::names_to_resume(m.session()).len(),
        forall|k: int| 0 <= k < replies.len() ==> (#[trigger] replies[k]) is Ok,
    ensures
        ({
            let names = manager::names_to_resume(m.session());
            let after = resume_each(next, names, replies, now);
            &&& names == m.meant_to_run(m.services.len())
            &&& after.services.len() == m.services.len()
            &&& forall|i: int|
                0 <= i < m.services.len() ==> ((#[trigger] after.services[i]).child is Some
                    <==> m.services[i].child is Some && !m.services[i].user_stopped)
            &&& resume_messages(next, names, replies, now) == resumed_texts(names)
        }),
{
    if m.session() is Some {
        sessions_resume_what_ran(m, next);
    } else {
        assert(m.meant_to_run(m.services.len()) =~= Seq::<Seq<char>>::empty());
    }
    lemma_resumed_so_far(m, next, replies, now, m.services.len());
}

/// Without a session nothing is started and nothing is said.
pub proof fn no_session_resumes_nothing(
    m: manager::ManagerView,
    replies: Seq<Result<i32, String>>,
    now: u64,
)
    ensures
        manager::names_to_resume(None).len() == 0,
        resume_each(m, manager::names_to_resume(None), replies, now) == m,
        resume_messages(m, manager::names_to_resume(None), replies, now).len() == 0,
{
}

/// There is no session exactly when no service is meant to run.
pub proof fn sessions_tell_what_runs(m: manager::ManagerView, n: nat)
    requires
        n <= m.services.len(),
    ensures
        m.meant_to_run(n).len() == 0 <==> (forall|i: int|
            0 <= i < n ==> (#[trigger] m.services[i]).child is None || m.services[i].user_stopped),
    decreases n,
{
    if n > 0 {
        sessions_tell_what_runs(m, (n - 1) as nat);
        let s = m.services[n - 1];
        if s.child is None || s.user_stopped {
            if m.meant_to_run((n - 1) as nat).len() == 0 {
                assert forall|i: int| 0 <= i < n implies (#[trigger] m.services[i]).child is None
                    || m.services[i].user_stopped by {
                    if i < n - 1 {
                        assert(m.services[i].child is None || m.services[i].user_stopped);
                    }
                }
            }
        }
    }
}

// ------------------------------------------------------------------ the stack

/// The stack names services that there are, each at most once; without a list it is all of
/// them in file order.
pub proof fn stacks_are_orders(m: manager::ManagerView)
    requires
        m.services.len() <= usize::MAX,
    ensures
        m.stack_order().no_duplicates(),
        forall|k: int|
            0 <= k < m.stack_order().len() ==> (#[trigger] m.stack_order()[k]) < m.services.len(),
        m.stack is None ==> m.stack_order().len() == m.services.len() && forall|k: int|
            0 <= k < m.services.len() ==> (#[trigger] m.stack_order()[k]) == k,
{
    if let Some(names) = m.stack {
        lemma_named_are_orders(m, names);
    }
}

proof fn lemma_find_in_range(m: manager::ManagerView, name: Seq<char>, from: int)
    requires
        0 <= from,
    ensures
        m.find(name, from) matches Some(i) ==> from <= i < m.services.len(),
    decreases m.services.len() - from,
{
    if from < m.services.len() && m.services[from].cfg.name != name {
        lemma_find_in_range(m, name, from + 1);
    }
}

proof fn lemma_named_are_orders(m: manager::ManagerView, names: Seq<Seq<char>>)
    requires
        m.services.len() <= usize::MAX,
    ensures
        m.named(names).no_duplicates(),
        forall|k: int|
            0 <= k < m.named(names).len() ==> (#[trigger] m.named(names)[k]) < m.services.len(),
    decreases names.len(),
{
    if names.len() > 0 {
        lemma_named_are_orders(m, names.drop_last());
        lemma_find_in_range(m, names.last(), 0);
        let before = m.named(names.drop_last());
        if let Some(i) = m.find(names.last(), 0) {
            if !before.contains(i as usize) {
                let after = before.push(i as usize);
                assert forall|a: int, b: int|
                    0 <= a < after.len() && 0 <= b < after.len() && a
                        != b implies #[trigger] after[a] != #[trigger] after[b] by {
                    if a < before.len() {
                        assert(before.contains(before[a]));
                    }
                    if b < before.len() {
                        assert(before.contains(before[b]));
                    }
                }
            }
        }
    }
}

/// The stack is stopped in the reverse of the order in which it is restarted: the calls of the
/// one are about the same services as those of the other, from the end.
pub proof fn stacks_stop_in_reverse(a: app::AppView, k: int)
    requires
        0 <= k < a.manager.stack_order().len(),
    ensures
        ({
            let order = a.manager.stack_order();
            let stop = confirm::calls_of(
                app::AppView { pending: Some(app::PendingView::StackStop), ..a },
            );
            let restart = confirm::calls_of(
                app::AppView { pending: Some(app::PendingView::StackRestart), ..a },
            );
            &&& stop.len() == order.len()
            &&& restart.len() == order.len()
            &&& restart[k] == confirm::restart_call(a.manager, order[k] as int)
            &&& stop[order.len() - 1 - k] == confirm::stop_call(
                a.manager.services[order[k] as int],
            )
        }),
{
}

/// Starting the stack starts no service that is not part of it, and leaves those that run as
/// they are.
pub proof fn stacks_start_only_their_own(
    m: manager::ManagerView,
    order: Seq<usize>,
    replies: Seq<Result<i32, String>>,
    now: u64,
    n: nat,
    j: int,
)
    requires
        n <= order.len(),
        0 <= j < m.services.len(),
        forall|k: int| 0 <= k < order.len() ==> (#[trigger] order[k]) < m.services.len(),
        m.services[j].child is Some || forall|k: int| 0 <= k < order.len() ==> order[k] != j,
    ensures
        ({
            let run = quick::start_run(m, order, replies, now, n);
            run.manager.services.len() == m.services.len() && run.manager.services[j]
                == m.services[j]
        }),
    decreases n,
{
    if n > 0 {
        stacks_start_only_their_own(m, order, replies, now, (n - 1) as nat, j);
    }
}

proof fn lemma_start_run_so_far(
    m: manager::ManagerView,
    replies: Seq<Result<i32, String>>,
    now: u64,
    n: nat,
)
    requires
        n <= m.stack_order().len(),
        m.services.len() <= usize::MAX,
    ensures
        ({
            let order = m.stack_order();
            let run = quick::start_run(m, order, replies, now, n);
            &&& run.manager.services.len() == m.services.len()
            &&& forall|x: int|
                n <= x < order.len() ==> run.manager.services[(#[trigger] order[x]) as int]
                    == m.services[order[x] as int]
            &&& run.failure is Some <==> exists|j: int|
                0 <= j < n && #[trigger] quick::failed_at(m, replies, j)
        }),
    decreases n,
{
    stacks_are_orders(m);
    let order = m.stack_order();
    if n > 0 {
        lemma_start_run_so_far(m, replies, now, (n - 1) as nat);
        let before = quick::start_run(m, order, replies, now, (n - 1) as nat);
        let run = quick::start_run(m, order, replies, now, n);
        let i = order[n - 1] as int;
        assert(before.manager.services[i] == m.services[i]);
        assert forall|x: int| n <= x < order.len() implies run.manager.services[(
        #[trigger] order[x]) as int] == m.services[order[x] as int] by {
            assert(order[x] != order[n - 1]);
        }
        if run.failure is Some {
            if before.failure is Some {
                let j = choose|j: int| 0 <= j < n - 1 && #[trigger] quick::failed_at(m, replies, j);
                assert(quick::failed_at(m, replies, j));
            } else {
                assert(quick::failed_at(m, replies, n - 1));
            }
        }
        if exists|j: int| 0 <= j < n && #[trigger] quick::failed_at(m, replies, j) {
            let j = choose|j: int| 0 <= j < n && #[trigger] quick::failed_at(m, replies, j);
            if j < n - 1 {
                assert(quick::failed_at(m, replies, j));
            }
        }
    }
}

/// The steps that start a stack are the ones that count: where a step spawns nothing, the reply
/// for it changes nothing, and where it spawns, it spawns the service whose turn it is and
/// nothing has failed before.
pub proof fn stacks_start_step_by_step(
    m: manager::ManagerView,
    replies: Seq<Result<i32, String>>,
    now: u64,
    k: nat,
)
    requires
        k < m.stack_order().len(),
        k <= replies.len(),
        m.services.len() <= usize::MAX,
    ensures
        ({
            let order = m.stack_order();
            let step = quick::next_start_of(m, replies.take(k as int));
            let run = quick::start_run(m, order, replies, now, k);
            &&& step !is Done
            &&& step is Skip ==> quick::start_run(m, order, replies, now, k + 1) == run
            &&& step matches quick::StackStepView::Spawn(l) ==> l.service == order[k as int]
                && run.failure is None && run.manager.services[l.service as int].child is None
        }),
{
    lemma_start_run_so_far(m, replies, now, k);
    stacks_are_orders(m);
    let order = m.stack_order();
    let so_far = replies.take(k as int);
    let run = quick::start_run(m, order, replies, now, k);
    assert(run.manager.services[order[k as int] as int] == m.services[order[k as int] as int]);
    if run.failure is Some {
        let j = choose|j: int| 0 <= j < k && #[trigger] quick::failed_at(m, replies, j);
        assert(quick::failed_at(m, so_far, j));
    }
    if exists|j: int| 0 <= j < k && #[trigger] quick::failed_at(m, so_far, j) {
        let j = choose|j: int| 0 <= j < k && #[trigger] quick::failed_at(m, so_far, j);
        assert(quick::failed_at(m, replies, j));
    }
}

// ------------------------------------------------------------------ guardrails

/// The parent of a process.
pub open spec fn parent_of(a: app::AppView, pid: i32) -> Option<i32> {
    match system::process_of(a.system, pid) {
        Some(p) => p.parent,
        None => None,
    }
}

/// The ancestor of a process `k` generations up.
pub open spec fn ancestor(a: app::AppView, of: i32, k: nat) -> Option<i32>
    decreases k,
{
    if k == 0 {
        Some(of)
    } else {
        match parent_of(a, of) {
            Some(q) => ancestor(a, q, (k - 1) as nat),
            None => None,
        }
    }
}

proof fn lemma_ancestor_after(a: app::AppView, of: i32, i: nat, j: nat)
    ensures
        ancestor(a, of, i + j) == (match ancestor(a, of, i) {
            Some(q) => ancestor(a, q, j),
            None => None,
        }),
    decreases i,
{
    if i > 0 {
        if let Some(q) = parent_of(a, of) {
            lemma_ancestor_after(a, q, (i - 1) as nat, j);
        }
    }
}

proof fn lemma_ancestor_is_one(a: app::AppView, pid: i32, of: i32, k: nat, fuel: nat)
    requires
        ancestor(a, of, k) == Some(pid),
        k <= fuel,
    ensures
        actions::is_ancestor(a, pid, of, fuel),
    decreases k,
{
    if k > 0 {
        if let Some(q) = parent_of(a, of) {
            lemma_ancestor_is_one(a, pid, q, (k - 1) as nat, (fuel - 1) as nat);
        }
    }
}

proof fn lemma_found_at(processes: Seq<system::ProcessView>, pid: i32, from: int) -> (x: int)
    requires
        0 <= from,
        system::find_process(processes, pid, from) is Some,
    ensures
        from <= x < processes.len(),
        processes[x].pid == pid,
    decreases processes.len() - from,
{
    if processes[from].pid == pid {
        from
    } else {
        lemma_found_at(processes, pid, from + 1)
    }
}

/// Where a process stands in the process table.
pub open spec fn place_of(a: app::AppView, pid: i32) -> int {
    choose|x: int| 0 <= x < a.system.len() && (#[trigger] a.system[x]).pid == pid
}

/// A chain of ancestors that are all different is no longer than the process table.
proof fn lemma_chain_is_short(a: app::AppView, of: i32, k: nat)
    requires
        ancestor(a, of, k) is Some,
        forall|i: nat, j: nat| i < j < k ==> #[trigger] ancestor(a, of, i) != #[trigger] ancestor(a, of, j),
    ensures
        k <= a.system.len(),
{
    let places = Seq::new(k, |i: int| place_of(a, ancestor(a, of, i as nat)->0));
    assert forall|i: int| 0 <= i < k implies 0 <= #[trigger] places[i] < a.system.len()
        && a.system[places[i]].pid == ancestor(a, of, i as nat)->0 && ancestor(
        a,
        of,
        i as nat,
    ) is Some by {
        lemma_ancestor_after(a, of, i as nat, (k - i) as nat);
        let q = ancestor(a, of, i as nat)->0;
        assert(parent_of(a, q) is Some);
        let x = lemma_found_at(a.system, q, 0);
        assert(a.system[x].pid == q);
    }
    assert forall|i: int, j: int| 0 <= i < k && 0 <= j < k && i != j implies #[trigger] places[i]
        != #[trigger] places[j] by {
        if places[i] == places[j] {
            assert(ancestor(a, of, i as nat) == ancestor(a, of, j as nat));
            if i < j {
                assert(ancestor(a, of, i as nat) != ancestor(a, of, j as nat));
            } else {
                assert(ancestor(a, of, j as nat) != ancestor(a, of, i as nat));
            }
        }
    }
    places.unique_seq_to_set();
    vstd::set_lib::lemma_int_range(0, a.system.len() as int);
    let all = vstd::set_lib::set_int_range(0, a.system.len() as int);
    assert forall|x: int| places.to_set().contains(x) implies all.contains(x) by {
        let i = choose|i: int| 0 <= i < places.len() && places[i] == x;
        assert(0 <= places[i] < a.system.len());
    }
    vstd::set_lib::lemma_len_subset(places.to_set(), all);
}

proof fn lemma_short_way(a: app::AppView, pid: i32, of: i32, k: nat) -> (m: nat)
    requires
        ancestor(a, of, k) == Some(pid),
    ensures
        ancestor(a, of, m) == Some(pid),
        m <= a.system.len(),
    decreases k,
{
    if k <= a.system.len() {
        k
    } else if exists|i: nat, j: nat|
        i < j < k && #[trigger] ancestor(a, of, i) == #[trigger] ancestor(a, of, j) {
        let (i, j) = choose|i: nat, j: nat|
            i < j < k && #[trigger] ancestor(a, of, i) == #[trigger] ancestor(a, of, j);
        let rest = (k - j) as nat;
        lemma_ancestor_after(a, of, i, rest);
        lemma_ancestor_after(a, of, j, rest);
        lemma_short_way(a, pid, of, i + rest)
    } else {
        lemma_chain_is_short(a, of, k);
        k
    }
}

/// No ancestor of the panel is overlooked, however many generations up it is.
pub proof fn all_ancestors_are_found(a: app::AppView, pid: i32, k: nat)
    requires
        ancestor(a, a.own_pid, k) == Some(pid),
    ensures
        actions::in_own_tree(a, pid),
{
    let m = lemma_short_way(a, pid, a.own_pid, k);
    lemma_ancestor_is_one(a, pid, a.own_pid, m, a.system.len());
}

proof fn lemma_one_is_ancestor(a: app::AppView, pid: i32, of: i32, fuel: nat) -> (k: nat)
    requires
        actions::is_ancestor(a, pid, of, fuel),
    ensures
        ancestor(a, of, k) == Some(pid),
    decreases fuel,
{
    if pid == of {
        0
    } else {
        let q = parent_of(a, of)->0;
        let k = lemma_one_is_ancestor(a, pid, q, (fuel - 1) as nat);
        k + 1
    }
}

/// Nothing but the panel and its ancestors is taken for its own tree.
pub proof fn only_ancestors_are_found(a: app::AppView, pid: i32) -> (k: nat)
    requires
        actions::in_own_tree(a, pid),
    ensures
        ancestor(a, a.own_pid, k) == Some(pid),
{
    lemma_one_is_ancestor(a, pid, a.own_pid, a.system.len())
}

/// Whether a process is out of bounds: process 1, the panel or an ancestor of it, or a process
/// of root's when the panel is not root's.
pub open spec fn out_of_bounds(a: app::AppView, pid: i32, user: Seq<char>) -> bool {
    pid == 1 || actions::in_own_tree(a, pid) || (user == "root"@ && !a.is_root)
}

/// A process out of bounds can be neither killed nor restarted: the request leaves nothing
/// pending that was not pending before, and says why.
pub proof fn guarded_processes_are_safe(
    a: app::AppView,
    row: app::RowView,
    pid: i32,
    lookup: system::LookupView,
)
    requires
        a.selected_row() == Some(row),
        row.kind is Process,
        row.pid == Some(pid),
        out_of_bounds(a, pid, row.user),
    ensures
        actions::guard(a, row) matches Some(reason) && actions::kill_requested(a) == a.say(reason)
            && actions::restart_requested(a, lookup) == a.say(reason),
        actions::kill_requested(a).pending == a.pending,
        actions::restart_requested(a, lookup).pending == a.pending,
{
}

/// Any other process can be killed once that is confirmed.
pub proof fn other_processes_can_be_killed(a: app::AppView, row: app::RowView, pid: i32)
    requires
        a.selected_row() == Some(row),
        row.kind is Process,
        row.pid == Some(pid),
        !out_of_bounds(a, pid, row.user),
    ensures
        actions::kill_requested(a) == (app::AppView {
            pending: Some(app::PendingView::Kill { pid, name: row.name }),
            ..a
        }),
        confirm::calls_of(actions::kill_requested(a)) == seq![confirm::CallView::Terminate(pid)],
{
}

/// A request alone does nothing to a process, a service or a container: it changes what is
/// pending and what is said.
pub proof fn requests_do_no_harm(a: app::AppView, lookup: system::LookupView)
    ensures
        ({
            let k = actions::kill_requested(a);
            let r = actions::restart_requested(a, lookup);
            let d = actions::adopt_requested(a, lookup);
            &&& k == (app::AppView {
                pending: k.pending,
                message: k.message,
                events: k.events,
                ..a
            })
            &&& r == (app::AppView {
                pending: r.pending,
                message: r.message,
                events: r.events,
                ..a
            })
            &&& d == (app::AppView {
                pending: d.pending,
                message: d.message,
                events: d.events,
                ..a
            })
        }),
{
}

/// Nothing is called and nothing changes when a confirmation comes with nothing pending.
pub proof fn nothing_pending_nothing_done(
    a: app::AppView,
    replies: Seq<Result<i32, String>>,
    now: u64,
)
    requires
        a.pending is None,
    ensures
        confirm::calls_of(a).len() == 0,
        confirm::confirmed(a, replies, now) == a,
{
}

/// A confirmation settles what was pending: a second one does nothing.
pub proof fn confirmations_are_used_up(
    a: app::AppView,
    replies: Seq<Result<i32, String>>,
    now: u64,
)
    ensures
        confirm::confirmed(a, replies, now).pending is None,
{
    if let Some(app::PendingView::StackRestart) = a.pending {
        let order = a.manager.stack_order();
        let b = app::AppView {
            pending: None,
            manager: confirm::restart_each(a.manager, order, replies, now),
            ..a
        }.say("restarting the stack"@);
        messages_change_nothing_else(
            b,
            confirm::restart_failures(a.manager, order, replies, now),
        );
    }
}

// ------------------------------------------------------------------ messages

/// Messages change what is said and nothing else.
pub proof fn messages_change_nothing_else(a: app::AppView, messages: Seq<Seq<char>>)
    ensures
        ({
            let b = a.say_all(messages);
            b == (app::AppView { message: b.message, events: b.events, ..a })
        }),
    decreases messages.len(),
{
    if messages.len() > 0 {
        messages_change_nothing_else(a, messages.drop_last());
    }
}

/// The event log ends with the message that is shown, and is never longer than it may be.
pub proof fn events_end_with_the_message(a: app::AppView, message: Seq<char>)
    ensures
        a.say(message).message == message,
        a.say(message).events.last() == message,
        a.say(message).events.len() <= app::EVENT_CAP,
{
}

// ------------------------------------------------------------------ kills and respawns

/// A process is killed only when it is alive and was asked to exit three seconds ago or more.
pub proof fn processes_have_time_to_exit(
    a: app::AppView,
    sent: Seq<(i32, u64)>,
    now: u64,
    k: int,
) -> (i: int)
    requires
        0 <= k < watch::overdue(a, sent, now).len(),
    ensures
        0 <= i < sent.len(),
        sent[i].0 == watch::overdue(a, sent, now)[k],
        a.alive(sent[i].0),
        now >= sent[i].1 + app::KILL_ESCALATE_AFTER,
    decreases sent.len(),
{
    let before = watch::overdue(a, sent.drop_last(), now);
    if k < before.len() {
        processes_have_time_to_exit(a, sent.drop_last(), now, k)
    } else {
        sent.len() - 1
    }
}

/// A process that was asked to exit and is still there three seconds later is killed.
pub proof fn ignored_signals_escalate(
    a: app::AppView,
    pid: i32,
    name: Seq<char>,
    sent: Result<i32, String>,
    at: u64,
    now: u64,
)
    requires
        sent is Ok,
        a.alive(pid),
        now >= at + app::KILL_ESCALATE_AFTER,
    ensures
        ({
            let b = confirm::killed(a, pid, name, sent, at);
            watch::overdue(b, b.term_sent, now).last() == pid
        }),
        ({
            let b = confirm::killed(a, pid, name, sent, at);
            watch::overdue(b, b.term_sent, now).len() > 0
        }),
{
    let b = confirm::killed(a, pid, name, sent, at);
    assert(b.term_sent.drop_last() =~= a.term_sent);
}

/// Everything that was asked to exit is looked after: it has exited, is killed, or is waited
/// for.
pub proof fn no_process_is_forgotten(a: app::AppView, sent: (i32, u64), now: u64)
    ensures
        !a.alive(sent.0) || watch::overdue_pid(a, sent, now) == Some(sent.0)
            || watch::still_waiting(a, sent, now) == Some(sent),
        !a.alive(sent.0) ==> watch::overdue_pid(a, sent, now) is None && watch::still_waiting(
            a,
            sent,
            now,
        ) is None,
        watch::overdue_pid(a, sent, now) is Some ==> watch::still_waiting(a, sent, now) is None,
{
}

/// Nothing is run in place of a process that has not exited.
pub proof fn respawns_wait_for_the_exit(
    a: app::AppView,
    at: int,
    reply: Result<i32, String>,
    now: u64,
)
    requires
        0 <= at < a.respawns.len(),
        a.alive(a.respawns[at].pid),
    ensures
        watch::revive_of(a, a.respawns[at]) is Nothing,
        watch::respawn_watched(a, at, reply, now).manager == a.manager,
        watch::respawn_watched(a, at, reply, now).respawn_watches == a.respawn_watches,
{
}

/// A process that holds the port of a configured service is replaced by that service: it is
/// asked to exit, and once it has, the service is started.
pub proof fn configured_restarts_start_the_service(
    a: app::AppView,
    pid: i32,
    name: Seq<char>,
    cmd: Seq<Seq<char>>,
    cwd: Option<Seq<char>>,
    i: usize,
    sent: Result<i32, String>,
    spawned: Result<i32, String>,
    at: u64,
    now: u64,
)
    requires
        sent is Ok,
        i < a.manager.services.len(),
        a.manager.services[i as int].child is None,
        !a.alive(pid),
        spawned is Ok,
    ensures
        ({
            let b = confirm::process_restarted(
                a,
                pid,
                name,
                cmd,
                cwd,
                app::StrategyView::Configured(i),
                sent,
                at,
            );
            let r = a.respawns.len() as int;
            &&& b.respawns.len() == r + 1
            &&& b.respawns[r].pid == pid
            &&& watch::revive_of(b, b.respawns[r]) is Service
            &&& watch::respawn_watched(b, r, spawned, now).manager.services[i as int].child == Some(
                spawned->Ok_0,
            )
        }),
{
}

// ------------------------------------------------------------------ rows

/// A process that is part of a managed service has no row of its own.
pub proof fn managed_processes_have_one_row(a: app::AppView, e: ports::PortEntryView, i: int)
    requires
        0 <= i < a.manager.services.len(),
        a.manager.services[i].child == Some(e.pid) || (a.manager.services[i].child is Some
            && a.manager.services[i].cfg.port == Some(e.port)),
    ensures
        rows::process_row(a, e) is None,
{
    assert(rows::is_managed(a.manager, e));
}

/// There is a row for each service, first and in file order, when nothing is filtered.
pub proof fn services_come_first(a: app::AppView, i: int)
    requires
        0 <= i < a.manager.services.len(),
        a.filter.len() == 0,
    ensures
        rows::built(a).rows[i] == rows::service_row(a.manager, a.external, i),
{
}

proof fn lemma_nothing_left_out<A, T>(s: Seq<A>, f: spec_fn(A) -> Option<T>)
    requires
        forall|i: int| 0 <= i < s.len() ==> (#[trigger] f(s[i])) is Some,
    ensures
        split::filter_map(s, f).len() == s.len(),
        forall|i: int| 0 <= i < s.len() ==> Some(#[trigger] split::filter_map(s, f)[i]) == f(s[i]),
    decreases s.len(),
{
    if s.len() > 0 {
        let rest = s.drop_last();
        assert forall|i: int| 0 <= i < rest.len() implies (#[trigger] f(rest[i])) is Some by {
            assert(f(s[i]) is Some);
        }
        lemma_nothing_left_out(rest, f);
        assert(f(s[s.len() - 1]) is Some);
        assert forall|i: int| 0 <= i < s.len() implies Some(
            #[trigger] split::filter_map(s, f)[i],
        ) == f(s[i]) by {
            if i < rest.len() {
                assert(Some(split::filter_map(rest, f)[i]) == f(rest[i]));
            }
        }
    }
}

/// Without services every listening process and every container has a row.
pub proof fn all_is_shown_without_services(a: app::AppView)
    requires
        a.manager.services.len() == 0,
        a.filter.len() == 0,
    ensures
        ({
            let shown = rows::built(a).rows;
            &&& shown.len() == a.external.len() + a.containers.len()
            &&& forall|i: int|
                0 <= i < a.external.len() ==> (#[trigger] shown[i]).port == Some(
                    a.external[i].port,
                ) && shown[i].pid == Some(a.external[i].pid)
            &&& forall|i: int|
                0 <= i < a.containers.len() ==> #[trigger] shown[a.external.len() + i]
                    == rows::container_row(a.containers[i])
        }),
{
    let f = |e: ports::PortEntryView| rows::process_row(a, e);
    lemma_nothing_left_out(a.external, f);
    let shown = rows::built(a).rows;
    let processes = split::filter_map(a.external, f);
    assert forall|i: int| 0 <= i < a.external.len() implies (#[trigger] shown[i]).port == Some(
        a.external[i].port,
    ) && shown[i].pid == Some(a.external[i].pid) by {
        assert(shown[i] == processes[i]);
        assert(Some(processes[i]) == f(a.external[i]));
    }
}

proof fn lemma_filter_keeps<A>(s: Seq<A>, f: spec_fn(A) -> Option<A>, k: int)
    requires
        forall|x: A| (#[trigger] f(x)) is Some ==> f(x) == Some(x),
        0 <= k < split::filter_map(s, f).len(),
    ensures
        exists|i: int| 0 <= i < s.len() && #[trigger] s[i] == split::filter_map(s, f)[k],
    decreases s.len(),
{
    let before = split::filter_map(s.drop_last(), f);
    if k < before.len() {
        lemma_filter_keeps(s.drop_last(), f, k);
        let i = choose|i: int|
            0 <= i < s.drop_last().len() && #[trigger] s.drop_last()[i] == before[k];
        assert(s[i] == split::filter_map(s, f)[k]);
    } else {
        assert(s[s.len() - 1] == split::filter_map(s, f)[k]);
    }
}

/// A filter only leaves rows out: every row that is shown is one of all rows.
pub proof fn filters_only_leave_out(a: app::AppView, k: int)
    requires
        0 <= k < rows::shown_rows(a).len(),
    ensures
        exists|i: int|
            0 <= i < rows::all_rows(a).len() && #[trigger] rows::all_rows(a)[i]
                == rows::shown_rows(a)[k],
{
    if a.filter.len() == 0 {
        assert(rows::all_rows(a)[k] == rows::shown_rows(a)[k]);
    } else {
        let f = |r: app::RowView| rows::filtered(r, a.filter);
        lemma_filter_keeps(rows::all_rows(a), f, k);
    }
}

/// Once the rows are built, the selection names one of them where there are any.
pub proof fn selections_name_rows(a: app::AppView)
    requires
        rows::shown_rows(a).len() > 0,
        rows::shown_rows(a).len() <= usize::MAX,
    ensures
        rows::built(a).selected_row() is Some,
{
}

/// A selection that names a row stays where it is.
pub proof fn selections_stay(a: app::AppView, i: usize)
    requires
        a.table.selected == Some(i),
        i < rows::shown_rows(a).len(),
    ensures
        rows::built(a).table == a.table,
{
}

/// Docker is not asked any more once it has failed.
pub proof fn docker_fails_once(
    a: app::AppView,
    processes: Seq<system::ProcessView>,
    lookups: Seq<system::LookupView>,
    found: Result<Vec<ports::PortEntry>, String>,
    listed: Result<Vec<docker::Container>, String>,
)
    requires
        !a.docker_ok,
    ensures
        !rows::polled(a, processes, lookups, found, listed).docker_ok,
        rows::polled(a, processes, lookups, found, listed).containers == a.containers,
{
}

/// The warning about port conflicts comes once.
pub proof fn conflicts_are_told_once(a: app::AppView)
    ensures
        rows::warned(rows::warned(a)) == rows::warned(a),
{
}

// ------------------------------------------------------------------ adoption

proof fn lemma_service_on_port(m: manager::ManagerView, port: u16, from: int, i: int)
    requires
        0 <= from <= i < m.services.len(),
        m.services[i].cfg.port == Some(port),
    ensures
        rows::service_on_port(m, port, from) is Some,
    decreases i - from,
{
    if m.services[from].cfg.port != Some(port) {
        lemma_service_on_port(m, port, from + 1, i);
    }
}

/// A process that was adopted is restarted as a configured service from then on.
pub proof fn adopted_processes_are_configured(
    a: app::AppView,
    cfg: services::ServiceConfigView,
    reply: Result<i32, String>,
    port: u16,
    pid: i32,
    cmd: Seq<Seq<char>>,
    lookup: system::LookupView,
)
    requires
        reply is Ok,
        cfg.port == Some(port),
    ensures
        ({
            let b = confirm::adopted(a, cfg, reply);
            &&& b.manager.services.len() == a.manager.services.len() + 1
            &&& b.manager.services.last() == services::fresh(cfg)
            &&& rows::process_strategy(
                b.manager,
                b.os,
                pid,
                Some(port),
                cmd,
                lookup,
            ) is Configured
        }),
{
    let b = confirm::adopted(a, cfg, reply);
    lemma_service_on_port(b.manager, port, 0, a.manager.services.len() as int);
}

// ------------------------------------------------------------------ health

/// A health URL wins over a port, and is only asked over plain HTTP.
pub proof fn only_plain_http_is_asked(m: manager::ManagerView, i: int, url: Seq<char>)
    requires
        0 <= i < m.services.len(),
        m.services[i].child is Some,
        m.services[i].stop_requested is None,
        m.services[i].cfg.health_url == Some(url),
        !split::begins(url, "http://"@),
    ensures
        health::url_target(url) is None,
        m.probe(i) is Unsupported,
{
}

/// A service with neither a health URL nor a port is up as soon as it runs.
pub proof fn running_is_enough_without_a_probe(s: services::ServiceView, healthy: bool, now: u64)
    requires
        s.cfg.port is None,
        s.cfg.health_url is None,
    ensures
        services::health_of(s, healthy, now) is Up,
{
}

/// A service that does not answer is starting for five seconds and down from then on.
pub proof fn silence_is_down_after_the_grace(s: services::ServiceView, at: u64, now: u64)
    requires
        s.cfg.port is Some || s.cfg.health_url is Some,
        s.started == Some(at),
        now >= at,
    ensures
        services::health_of(s, false, now) is Starting <==> now < at + services::STARTING_GRACE,
        services::health_of(s, false, now) is Down <==> now >= at + services::STARTING_GRACE,
{
}

} // verus!
