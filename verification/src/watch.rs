//! What is under way: processes that were asked to exit, those that are run anew once they
//! have, and calls of docker in the background.
use vstd::prelude::*;
use crate::app;
use crate::app::{
    App, RespawnWatch, Revival, KILL_ESCALATE_AFTER, RESPAWN_CRASH_WINDOW,
    RESPAWN_GIVE_UP,
};
use crate::manager;
use crate::manager::Launch;
use crate::services;
use crate::split;
use crate::split::{join_strings, trimmed};
use crate::text;
use crate::text::{
    chars_of, copy_option, copy_strings, push_signed, push_text, string_of,
};

verus! {

// ------------------------------------------------------------------ kills

/// Whether a process that was asked to exit has had its time and is still there.
pub open spec fn is_overdue(a: app::AppView, sent: (i32, u64), now: u64) -> bool {
    a.alive(sent.0) && services::elapsed(sent.1, now) >= KILL_ESCALATE_AFTER
}

/// The process, when it is to be killed.
pub open spec fn overdue_pid(a: app::AppView, sent: (i32, u64), now: u64) -> Option<i32> {
    if is_overdue(a, sent, now) {
        Some(sent.0)
    } else {
        None
    }
}

/// The processes that are to be killed, in the order in which they were asked to exit.
pub open spec fn overdue(a: app::AppView, sent: Seq<(i32, u64)>, now: u64) -> Seq<i32> {
    split::filter_map(sent, |s: (i32, u64)| overdue_pid(a, s, now))
}

/// A process that was asked to exit and still has time to do so.
pub open spec fn still_waiting(a: app::AppView, sent: (i32, u64), now: u64) -> Option<(i32, u64)> {
    if a.alive(sent.0) && !is_overdue(a, sent, now) {
        Some(sent)
    } else {
        None
    }
}

/// What is said of the processes that were asked to exit, given how killing the overdue ones
/// went.
pub open spec fn kill_messages(
    a: app::AppView,
    sent: Seq<(i32, u64)>,
    replies: Seq<Result<(), String>>,
    now: u64,
) -> Seq<Seq<char>>
    decreases sent.len(),
{
    if sent.len() == 0 {
        Seq::empty()
    } else {
        let earlier = kill_messages(a, sent.drop_last(), replies, now);
        let pid = text::signed_decimal(sent.last().0 as int);
        if !a.alive(sent.last().0) {
            earlier.push(pid + " exited after SIGTERM"@)
        } else if is_overdue(a, sent.last(), now) {
            earlier.push(
                match replies[overdue(a, sent.drop_last(), now).len() as int] {
                    Ok(_) => "SIGKILL → "@ + pid + " (ignored SIGTERM)"@,
                    Err(e) => "SIGKILL "@ + pid + " failed: "@ + e@,
                },
            )
        } else {
            earlier
        }
    }
}

/// The panel after it looked after the processes that were asked to exit.
pub open spec fn kills_watched(
    a: app::AppView,
    replies: Seq<Result<(), String>>,
    now: u64,
) -> app::AppView {
    app::AppView {
        term_sent: split::filter_map(a.term_sent, |s: (i32, u64)| still_waiting(a, s, now)),
        ..a
    }.say_all(kill_messages(a, a.term_sent, replies, now))
}

// ------------------------------------------------------------------ respawns

/// What is to be run in place of a process that has exited.
pub enum Revive {
    /// Nothing: the process has not exited, or the service already runs.
    Nothing,
    /// A command line, directly or through the shell.
    Command { cmd: Vec<String>, cwd: Option<String>, shell: bool },
    /// The command of a service.
    Service(Launch),
}

/// What a [`Revive`] says.
pub ghost enum ReviveView {
    Nothing,
    Command { cmd: Seq<Seq<char>>, cwd: Option<Seq<char>>, shell: bool },
    Service(manager::LaunchView),
}

impl View for Revive {
    type V = ReviveView;

    open spec fn view(&self) -> ReviveView {
        match *self {
            Revive::Nothing => ReviveView::Nothing,
            Revive::Command { cmd, cwd, shell } => ReviveView::Command {
                cmd: text::texts(cmd@),
                cwd: text::opt_text(cwd),
                shell,
            },
            Revive::Service(l) => ReviveView::Service(l@),
        }
    }
}

/// What is to be run for a respawn.
pub open spec fn revive_of(a: app::AppView, r: app::RespawnView) -> ReviveView {
    if a.alive(r.pid) {
        ReviveView::Nothing
    } else {
        match r.revival {
            app::RevivalView::Command { cmd, cwd, shell } => ReviveView::Command {
                cmd,
                cwd,
                shell,
            },
            app::RevivalView::Service(i) => match a.manager.launch(i as int) {
                Some(l) => ReviveView::Service(l),
                None => ReviveView::Nothing,
            },
        }
    }
}

/// Whether a respawn goes on waiting for its process to exit.
pub open spec fn respawn_waits(a: app::AppView, r: app::RespawnView, now: u64) -> bool {
    a.alive(r.pid) && services::elapsed(r.since, now) < RESPAWN_GIVE_UP
}

/// The panel after what was to be run for a respawn was run, given how that went.
pub open spec fn revived(
    a: app::AppView,
    revival: app::RevivalView,
    reply: Result<i32, String>,
    now: u64,
) -> app::AppView {
    match revival {
        app::RevivalView::Command { cmd, .. } => match reply {
            Ok(pid) => app::AppView {
                respawn_watches: a.respawn_watches.push(
                    app::RespawnWatchView { pid, cmd, since: now },
                ),
                ..a
            }.say("respawned as "@ + text::signed_decimal(pid as int)),
            Err(e) => a.say("respawn failed: "@ + e@),
        },
        app::RevivalView::Service(i) => {
            let s = a.manager.services[i as int];
            if s.child is Some {
                a.say(s.cfg.name + " is already running"@)
            } else {
                app::AppView { manager: a.manager.start(i as int, reply, now), ..a }.say(
                    match reply {
                        Ok(_) => "started "@ + s.cfg.name,
                        Err(e) => "start "@ + s.cfg.name + " failed: "@ + e@,
                    },
                )
            }
        },
    }
}

/// The panel after it looked after one respawn: one whose process has exited is carried out,
/// one whose process does not exit in time is given up, any other is kept.
pub open spec fn respawn_watched(
    a: app::AppView,
    at: int,
    reply: Result<i32, String>,
    now: u64,
) -> app::AppView {
    let r = a.respawns[at];
    let without = app::AppView { respawns: a.respawns.remove(at), ..a };
    if respawn_waits(a, r, now) {
        a
    } else if a.alive(r.pid) {
        without.say(text::signed_decimal(r.pid as int) + " won't exit; respawn abandoned"@)
    } else {
        revived(without, r.revival, reply, now)
    }
}

// ------------------------------------------------------------------ instant exits

/// What was seen of a process that was just spawned.
pub enum ChildState {
    /// It exited; how, and what it wrote as errors.
    Exited { status: String, stderr: String },
    Running,
    /// It could not be asked.
    Unknown,
}

/// What is said of a respawn that did not last.
pub open spec fn crash_text(
    cmd: Seq<Seq<char>>,
    status: Seq<char>,
    stderr: Seq<char>,
) -> Seq<char> {
    let said = split::trim(stderr);
    "respawn of "@ + split::join(cmd, " "@) + " exited immediately ("@ + status + "): "@ + (
    if said.len() == 0 {
        "no output"@
    } else {
        said
    })
        + ". Naive restart runs outside the original shell/wrapper env — consider making it a managed service in "@
        + services::CONFIG_FILE@ + " instead."@
}

/// What is said of a watched respawn.
pub open spec fn crash_message(
    w: app::RespawnWatchView,
    state: ChildState,
) -> Option<Seq<char>> {
    match state {
        ChildState::Exited { status, stderr } => Some(crash_text(w.cmd, status@, stderr@)),
        _ => None,
    }
}

/// Whether a respawn is watched on.
pub open spec fn watched_on(w: app::RespawnWatchView, state: ChildState, now: u64) -> bool {
    state is Running && services::elapsed(w.since, now) < RESPAWN_CRASH_WINDOW
}

/// What is said of the watched respawns.
pub open spec fn crash_messages(
    watches: Seq<app::RespawnWatchView>,
    states: Seq<ChildState>,
) -> Seq<Seq<char>>
    decreases watches.len(),
{
    if watches.len() == 0 {
        Seq::empty()
    } else {
        let earlier = crash_messages(watches.drop_last(), states);
        match crash_message(watches.last(), states[watches.len() - 1]) {
            Some(m) => earlier.push(m),
            None => earlier,
        }
    }
}

/// The respawns that are watched on.
pub open spec fn watches_kept(
    watches: Seq<app::RespawnWatchView>,
    states: Seq<ChildState>,
    now: u64,
) -> Seq<app::RespawnWatchView>
    decreases watches.len(),
{
    if watches.len() == 0 {
        Seq::empty()
    } else {
        let earlier = watches_kept(watches.drop_last(), states, now);
        if watched_on(watches.last(), states[watches.len() - 1], now) {
            earlier.push(watches.last())
        } else {
            earlier
        }
    }
}

/// The panel after it looked after the processes that it just spawned.
pub open spec fn crashes_watched(
    a: app::AppView,
    states: Seq<ChildState>,
    now: u64,
) -> app::AppView {
    app::AppView { respawn_watches: watches_kept(a.respawn_watches, states, now), ..a }.say_all(
        crash_messages(a.respawn_watches, states),
    )
}

// ------------------------------------------------------------------ docker

/// What was seen of a call of docker in the background.
pub enum OpState {
    /// It is done; what is to be said of it.
    Done(String),
    Waiting,
    /// It will never answer.
    Gone,
}

/// What is said of the calls that are done.
pub open spec fn op_messages(states: Seq<OpState>) -> Seq<Seq<char>> {
    split::filter_map(
        states,
        |s: OpState|
            match s {
                OpState::Done(m) => Some(m@),
                _ => None,
            },
    )
}

/// The calls among the first `n` that are still waited for.
pub open spec fn ops_waiting(states: Seq<OpState>, n: nat) -> Seq<usize>
    decreases n,
{
    if n == 0 {
        Seq::empty()
    } else {
        let earlier = ops_waiting(states, (n - 1) as nat);
        if states[n - 1] is Waiting {
            earlier.push((n - 1) as usize)
        } else {
            earlier
        }
    }
}

// ------------------------------------------------------------------ execution

fn crash_line(cmd: &Vec<String>, status: &str, stderr: &str) -> (r: String)
    ensures
        r@ == crash_text(text::texts(cmd@), status@, stderr@),
{
    let line = join_strings(cmd, " ");
    let chars = chars_of(stderr);
    let said = trimmed(chars.as_slice());
    let shown = if said.len() == 0 {
        "no output".to_owned()
    } else {
        string_of(said.as_slice())
    };
    let mut m = "respawn of ".to_owned();
    push_text(&mut m, line.as_str());
    push_text(&mut m, " exited immediately (");
    push_text(&mut m, status);
    push_text(&mut m, "): ");
    push_text(&mut m, shown.as_str());
    push_text(
        &mut m,
        ". Naive restart runs outside the original shell/wrapper env — consider making it a managed service in ",
    );
    push_text(&mut m, services::CONFIG_FILE);
    push_text(&mut m, " instead.");
    m
}

impl App {
    fn overdue_now(&self, sent: (i32, u64), now: u64) -> (r: bool)
        ensures
            r == is_overdue(self@, sent, now),
    {
        self.alive(sent.0) && now.saturating_sub(sent.1) >= KILL_ESCALATE_AFTER
    }

    /// The processes that are to be killed; see [`overdue`].
    pub fn overdue_kills(&self, now: u64) -> (r: Vec<i32>)
        ensures
            r@ == overdue(self@, self@.term_sent, now),
    {
        let mut out: Vec<i32> = Vec::new();
        let ghost a = self@;
        let ghost f = |s: (i32, u64)| overdue_pid(a, s, now);
        let n = self.term_sent.len();
        assert(a.term_sent.take(0) =~= Seq::<(i32, u64)>::empty());
        for k in 0..n
            invariant
                a == self@,
                f == (|s: (i32, u64)| overdue_pid(a, s, now)),
                n == self.term_sent@.len(),
                out@ == split::filter_map(a.term_sent.take(k as int), f),
        {
            proof {
                assert(a.term_sent.take(k + 1).drop_last() =~= a.term_sent.take(k as int));
                assert(a.term_sent.take(k + 1).last() == a.term_sent[k as int]);
            }
            let sent = self.term_sent[k];
            if self.overdue_now(sent, now) {
                out.push(sent.0);
            }
        }
        assert(a.term_sent.take(n as int) =~= a.term_sent);
        out
    }

    /// Looks after the processes that were asked to exit, given how killing the overdue ones
    /// went; see [`App::overdue_kills`] and [`kills_watched`].
    pub fn watch_kills(&mut self, replies: &Vec<Result<(), String>>, now: u64)
        requires
            old(self).wf(),
            replies@.len() == overdue(old(self)@, old(self)@.term_sent, now).len(),
        ensures
            final(self)@ == kills_watched(old(self)@, replies@, now),
            final(self).wf(),
    {
        let ghost a = self@;
        let ghost sent = a.term_sent;
        let ghost due = |s: (i32, u64)| overdue_pid(a, s, now);
        let ghost stay = |s: (i32, u64)| still_waiting(a, s, now);
        let mut keep: Vec<(i32, u64)> = Vec::new();
        let mut messages: Vec<String> = Vec::new();
        let mut used: usize = 0;
        let total = replies.len();
        let n = self.term_sent.len();
        proof {
            assert(sent.take(0) =~= Seq::<(i32, u64)>::empty());
            assert(text::texts(messages@) =~= Seq::<Seq<char>>::empty());
        }
        for k in 0..n
            invariant
                a == self@,
                self.wf(),
                sent == a.term_sent,
                n == self.term_sent@.len(),
                due == (|s: (i32, u64)| overdue_pid(a, s, now)),
                stay == (|s: (i32, u64)| still_waiting(a, s, now)),
                total == replies@.len(),
                total == overdue(a, sent, now).len(),
                used == overdue(a, sent.take(k as int), now).len(),
                keep@ == split::filter_map(sent.take(k as int), stay),
                text::texts(messages@) == kill_messages(a, sent.take(k as int), replies@, now),
        {
            let ghost earlier = text::texts(messages@);
            proof {
                assert(sent.take(k + 1).drop_last() =~= sent.take(k as int));
                assert(sent.take(k + 1).last() == sent[k as int]);
                lemma_overdue_grows(a, sent, now, k + 1);
            }
            let (pid, when) = self.term_sent[k];
            if !self.alive(pid) {
                let mut m = String::new();
                push_signed(&mut m, pid);
                push_text(&mut m, " exited after SIGTERM");
                assert(m@ =~= text::signed_decimal(pid as int) + " exited after SIGTERM"@);
                let ghost mv = m@;
                messages.push(m);
                assert(text::texts(messages@) =~= earlier.push(mv));
            } else if self.overdue_now((pid, when), now) {
                let m = match &replies[used] {
                    Ok(_) => {
                        let mut m = "SIGKILL → ".to_owned();
                        push_signed(&mut m, pid);
                        push_text(&mut m, " (ignored SIGTERM)");
                        m
                    },
                    Err(e) => {
                        let mut m = "SIGKILL ".to_owned();
                        push_signed(&mut m, pid);
                        push_text(&mut m, " failed: ");
                        push_text(&mut m, e.as_str());
                        m
                    },
                };
                let ghost mv = m@;
                messages.push(m);
                used = used + 1;
                assert(text::texts(messages@) =~= earlier.push(mv));
            } else {
                keep.push((pid, when));
            }
        }
        assert(sent.take(n as int) =~= sent);
        self.term_sent = keep;
        self.say_each(&messages);
    }

    /// What is to be run for a respawn; see [`revive_of`].
    pub fn respawn_revive(&self, at: usize) -> (r: Revive)
        requires
            self.wf(),
            at < self@.respawns.len(),
        ensures
            r@ == revive_of(self@, self@.respawns[at as int]),
    {
        let r = &self.respawns[at];
        assert(app::revival_wf(self@.respawns[at as int].revival, self@.manager.services.len()));
        if self.alive(r.pid) {
            return Revive::Nothing;
        }
        match &r.revival {
            Revival::Command { cmd, cwd, shell } => Revive::Command {
                cmd: copy_strings(cmd),
                cwd: copy_option(cwd),
                shell: *shell,
            },
            Revival::Service(i) => match self.manager.launch(*i) {
                Some(l) => Revive::Service(l),
                None => Revive::Nothing,
            },
        }
    }

    fn revive(&mut self, revival: Revival, reply: &Result<i32, String>, now: u64)
        requires
            old(self).wf(),
            app::revival_wf(revival@, old(self)@.manager.services.len()),
        ensures
            final(self)@ == revived(old(self)@, revival@, *reply, now),
            final(self).wf(),
    {
        let ghost a = self@;
        match revival {
            Revival::Command { cmd, cwd: _, shell: _ } => match reply {
                Ok(pid) => {
                    let w = RespawnWatch { pid: *pid, cmd, since: now };
                    let ghost wv = w@;
                    self.respawn_watches.push(w);
                    assert(self@.respawn_watches =~= a.respawn_watches.push(wv));
                    let mut m = "respawned as ".to_owned();
                    push_signed(&mut m, *pid);
                    self.say(m);
                },
                Err(e) => {
                    let mut m = "respawn failed: ".to_owned();
                    push_text(&mut m, e.as_str());
                    self.say(m);
                },
            },
            Revival::Service(i) => {
                let name = self.manager.services[i].cfg.name.clone();
                if self.manager.services[i].running() {
                    let mut m = name;
                    push_text(&mut m, " is already running");
                    self.say(m);
                    return;
                }
                let done = self.manager.start(i, reply, now);
                proof {
                    app::more_services_keep_wf(a, self@);
                }
                let m = match done {
                    Ok(_) => {
                        let mut m = "started ".to_owned();
                        push_text(&mut m, name.as_str());
                        m
                    },
                    Err(e) => {
                        let mut m = "start ".to_owned();
                        push_text(&mut m, name.as_str());
                        push_text(&mut m, " failed: ");
                        push_text(&mut m, e.as_str());
                        m
                    },
                };
                self.say(m);
            },
        }
    }

    /// Looks after one respawn, given how running what [`App::respawn_revive`] says went; see
    /// [`respawn_watched`]. Gives back where the next one stands.
    pub fn watch_respawns(&mut self, at: usize, reply: &Result<i32, String>, now: u64) -> (r: usize)
        requires
            old(self).wf(),
            at < old(self)@.respawns.len(),
        ensures
            final(self)@ == respawn_watched(old(self)@, at as int, *reply, now),
            r == (if respawn_waits(old(self)@, old(self)@.respawns[at as int], now) {
                at + 1
            } else {
                at as int
            }),
            final(self).wf(),
    {
        let ghost a = self@;
        let pid = self.respawns[at].pid;
        let since = self.respawns[at].since;
        let alive = self.alive(pid);
        let n = self.respawns.len();
        assert(at < n);
        if alive && now.saturating_sub(since) < RESPAWN_GIVE_UP {
            return at + 1;
        }
        assert(app::revival_wf(a.respawns[at as int].revival, a.manager.services.len()));
        let gone = self.respawns.remove(at);
        proof {
            assert(self@.respawns =~= a.respawns.remove(at as int));
            assert forall|i: int| 0 <= i < self@.respawns.len() implies app::revival_wf(
                (#[trigger] self@.respawns[i]).revival,
                self@.manager.services.len(),
            ) by {
                let j = if i < at {
                    i
                } else {
                    i + 1
                };
                assert(app::revival_wf(a.respawns[j].revival, a.manager.services.len()));
            }
        }
        if alive {
            let mut m = String::new();
            push_signed(&mut m, pid);
            push_text(&mut m, " won't exit; respawn abandoned");
            assert(m@ =~= text::signed_decimal(pid as int) + " won't exit; respawn abandoned"@);
            self.say(m);
        } else {
            self.revive(gone.revival, reply, now);
        }
        at
    }

    /// Looks after the processes that were just spawned, given what was seen of them: catches
    /// the instant-exit failure mode (missing shell/wrapper env — pnpm, nvm shims, etc.)
    /// without waiting for it; see [`crashes_watched`].
    pub fn watch_respawn_crashes(&mut self, states: &Vec<ChildState>, now: u64)
        requires
            old(self).wf(),
            states@.len() == old(self)@.respawn_watches.len(),
        ensures
            final(self)@ == crashes_watched(old(self)@, states@, now),
            final(self).wf(),
    {
        let ghost a = self@;
        let ghost all = a.respawn_watches;
        let mut keep: Vec<RespawnWatch> = Vec::new();
        let mut messages: Vec<String> = Vec::new();
        let n = self.respawn_watches.len();
        proof {
            assert(all.take(0) =~= Seq::<app::RespawnWatchView>::empty());
            assert(text::texts(messages@) =~= Seq::<Seq<char>>::empty());
            assert(app::watch_views(keep@) =~= Seq::<app::RespawnWatchView>::empty());
        }
        for k in 0..n
            invariant
                a == self@,
                self.wf(),
                all == a.respawn_watches,
                n == self.respawn_watches@.len(),
                n == states@.len(),
                app::watch_views(keep@) == watches_kept(all.take(k as int), states@, now),
                text::texts(messages@) == crash_messages(all.take(k as int), states@),
        {
            let ghost earlier = text::texts(messages@);
            let ghost kept = app::watch_views(keep@);
            proof {
                assert(all.take(k + 1).drop_last() =~= all.take(k as int));
                assert(all.take(k + 1).last() == self.respawn_watches@[k as int]@);
            }
            let w = &self.respawn_watches[k];
            match &states[k] {
                ChildState::Exited { status, stderr } => {
                    let m = crash_line(&w.cmd, status.as_str(), stderr.as_str());
                    let ghost mv = m@;
                    messages.push(m);
                    assert(text::texts(messages@) =~= earlier.push(mv));
                },
                ChildState::Running => {
                    if now.saturating_sub(w.since) < RESPAWN_CRASH_WINDOW {
                        let c = RespawnWatch {
                            pid: w.pid,
                            cmd: copy_strings(&w.cmd),
                            since: w.since,
                        };
                        let ghost cv = c@;
                        keep.push(c);
                        assert(app::watch_views(keep@) =~= kept.push(cv));
                    }
                },
                ChildState::Unknown => {},
            }
        }
        assert(all.take(n as int) =~= all);
        self.respawn_watches = keep;
        self.say_each(&messages);
    }

    /// Shows what is to be said of the calls of docker that are done, and gives back those that
    /// are still waited for.
    pub fn watch_docker_ops(&mut self, states: &Vec<OpState>) -> (r: Vec<usize>)
        requires
            old(self).wf(),
        ensures
            final(self)@ == old(self)@.say_all(op_messages(states@)),
            r@ == ops_waiting(states@, states@.len()),
            final(self).wf(),
    {
        let ghost f = |s: OpState|
            match s {
                OpState::Done(m) => Some(m@),
                _ => None,
            };
        let mut messages: Vec<String> = Vec::new();
        let mut waiting: Vec<usize> = Vec::new();
        assert(text::texts(messages@) =~= Seq::<Seq<char>>::empty());
        assert(states@.take(0) =~= Seq::<OpState>::empty());
        for k in 0..states.len()
            invariant
                f == (|s: OpState|
                    match s {
                        OpState::Done(m) => Some(m@),
                        _ => None,
                    }),
                text::texts(messages@) == split::filter_map(states@.take(k as int), f),
                waiting@ == ops_waiting(states@, k as nat),
        {
            let ghost earlier = text::texts(messages@);
            proof {
                assert(states@.take(k + 1).drop_last() =~= states@.take(k as int));
                assert(states@.take(k + 1).last() == states@[k as int]);
            }
            match &states[k] {
                OpState::Done(m) => {
                    messages.push(m.clone());
                    assert(text::texts(messages@) =~= earlier.push(m@));
                },
                OpState::Waiting => {
                    waiting.push(k);
                },
                OpState::Gone => {},
            }
        }
        assert(states@.take(states@.len() as int) =~= states@);
        self.say_each(&messages);
        waiting
    }
}

/// Of more processes no fewer are overdue.
proof fn lemma_overdue_grows(a: app::AppView, sent: Seq<(i32, u64)>, now: u64, k: int)
    requires
        0 <= k <= sent.len(),
    ensures
        overdue(a, sent.take(k), now).len() <= overdue(a, sent, now).len(),
    decreases sent.len() - k,
{
    if k < sent.len() {
        assert(sent.take(k + 1).drop_last() =~= sent.take(k));
        lemma_overdue_grows(a, sent, now, k + 1);
    } else {
        assert(sent.take(k) =~= sent);
    }
}

} // verus!
