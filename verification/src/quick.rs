//! Actions that need no confirmation: starting services, opening a port in the browser or a
//! folder in the editor, and copying to the clipboard.
use vstd::prelude::*;
use crate::app;
use crate::app::{App, RowKind};
use crate::actions;
use crate::manager;
use crate::manager::Launch;
use crate::rows;
use crate::services;
use crate::system;
use crate::system::process;
use crate::text;
use crate::text::{decimal_string, push_decimal, push_text, signed_string};

verus! {

// ------------------------------------------------------------------ meaning

/// What is spawned to start the selected row.
pub open spec fn selected_launch(a: app::AppView) -> Option<manager::LaunchView> {
    match a.selected_row() {
        Some(row) => match row.kind {
            app::RowKindView::Service(i) => a.manager.launch(i as int),
            _ => None,
        },
        None => None,
    }
}

/// The panel after the selected row was to be started, given how spawning went.
pub open spec fn selected_started(
    a: app::AppView,
    spawned: Result<i32, String>,
    now: u64,
) -> app::AppView {
    match a.selected_row() {
        None => a,
        Some(row) => match row.kind {
            app::RowKindView::Service(i) => if a.manager.services[i as int].child is Some {
                a.say("already running (k stops it)"@)
            } else {
                rows::built(
                    app::AppView { manager: a.manager.start(i as int, spawned, now), ..a }.say(
                        match spawned {
                            Ok(_) => "started "@ + row.name,
                            Err(e) => "start "@ + row.name + " failed: "@ + e@,
                        },
                    ),
                )
            },
            _ => a.say("s starts managed services only (see dev-panel.toml)"@),
        },
    }
}

/// How far the start of a stack has come.
pub ghost struct StartRun {
    pub manager: manager::ManagerView,
    pub started: nat,
    /// What is said of the service that could not be started.
    pub failure: Option<Seq<char>>,
}

/// The start of a stack after its first `n` services. Those that run are left alone, and
/// nothing is started after a failure.
pub open spec fn start_run(
    m: manager::ManagerView,
    order: Seq<usize>,
    replies: Seq<Result<i32, String>>,
    now: u64,
    n: nat,
) -> StartRun
    decreases n,
{
    if n == 0 {
        StartRun { manager: m, started: 0, failure: None }
    } else {
        let before = start_run(m, order, replies, now, (n - 1) as nat);
        let i = order[n - 1] as int;
        if before.failure is Some || before.manager.services[i].child is Some {
            before
        } else {
            match replies[n - 1] {
                Ok(_) => StartRun {
                    manager: before.manager.start(i, replies[n - 1], now),
                    started: before.started + 1,
                    failure: None,
                },
                Err(e) => StartRun {
                    failure: Some(
                        "start "@ + before.manager.services[i].cfg.name + " failed: "@ + e@,
                    ),
                    ..before
                },
            }
        }
    }
}

/// What is to be done next to start a stack.
pub enum StackStep {
    /// Nothing is left.
    Done,
    /// Nothing for this service: it runs, or one before it could not be started.
    Skip,
    /// Run its command.
    Spawn(Launch),
}

/// What a [`StackStep`] says.
pub ghost enum StackStepView {
    Done,
    Skip,
    Spawn(manager::LaunchView),
}

impl View for StackStep {
    type V = StackStepView;

    open spec fn view(&self) -> StackStepView {
        match *self {
            StackStep::Done => StackStepView::Done,
            StackStep::Skip => StackStepView::Skip,
            StackStep::Spawn(l) => StackStepView::Spawn(l@),
        }
    }
}

/// Whether the service at a place of the stack did not run and could not be started.
pub open spec fn failed_at(
    m: manager::ManagerView,
    replies: Seq<Result<i32, String>>,
    k: int,
) -> bool {
    m.services[m.stack_order()[k] as int].child is None && replies[k] is Err
}

/// What is to be done next to start the stack, given the replies so far: its services are
/// started in order, those that run are left alone, and nothing is started after a failure.
pub open spec fn next_start_of(
    m: manager::ManagerView,
    replies: Seq<Result<i32, String>>,
) -> StackStepView {
    let k = replies.len() as int;
    if k >= m.stack_order().len() {
        StackStepView::Done
    } else if exists|j: int| 0 <= j < k && #[trigger] failed_at(m, replies, j) {
        StackStepView::Skip
    } else {
        match m.launch(m.stack_order()[k] as int) {
            Some(l) => StackStepView::Spawn(l),
            None => StackStepView::Skip,
        }
    }
}

/// The panel after the whole stack was to be started.
pub open spec fn stack_started(
    a: app::AppView,
    replies: Seq<Result<i32, String>>,
    now: u64,
) -> app::AppView {
    if a.manager.services.len() == 0 {
        a.say(actions::no_services_text())
    } else {
        let order = a.manager.stack_order();
        let run = start_run(a.manager, order, replies, now, order.len());
        let b = app::AppView { manager: run.manager, ..a };
        match run.failure {
            Some(m) => b.say(m),
            None => rows::built(b.say("started "@ + text::decimal(run.started) + " service(s)"@)),
        }
    }
}

/// The address of the selected row's port.
pub open spec fn url_of(a: app::AppView) -> Option<Seq<char>> {
    match a.selected_row() {
        Some(row) => match row.port {
            Some(p) => Some("http://localhost:"@ + text::decimal(p as nat)),
            None => None,
        },
        None => None,
    }
}

/// The panel after the selected row's port was to be opened in the browser.
pub open spec fn browser_opened(a: app::AppView, opened: Result<(), String>) -> app::AppView {
    match url_of(a) {
        None => a.say("no port on this row"@),
        Some(url) => a.say(
            match opened {
                Ok(_) => "opened "@ + url,
                Err(e) => "open failed: "@ + e@,
            },
        ),
    }
}

/// What is copied of a row: its process id, or its port and else its process id.
pub open spec fn copy_text_of(row: app::RowView, pid_first: bool) -> Option<Seq<char>> {
    if !pid_first && row.port is Some {
        Some(text::decimal(row.port->0 as nat))
    } else {
        match row.pid {
            Some(pid) => Some(text::signed_decimal(pid as int)),
            None => None,
        }
    }
}

/// The panel after something of the selected row was to be copied.
pub open spec fn copied(
    a: app::AppView,
    pid_first: bool,
    done: Result<(), String>,
) -> app::AppView {
    match a.selected_row() {
        None => a,
        Some(row) => match copy_text_of(row, pid_first) {
            None => a.say("nothing to copy on this row"@),
            Some(t) => a.say(
                match done {
                    Ok(_) => "copied "@ + t,
                    Err(e) => "clipboard failed: "@ + e@,
                },
            ),
        },
    }
}

/// The folder of a row: the working directory of a service or a process.
pub open spec fn folder_of(a: app::AppView, row: app::RowView) -> Option<Seq<char>> {
    match row.kind {
        app::RowKindView::Service(i) => Some(
            match a.manager.services[i as int].cfg.cwd {
                Some(d) => d,
                None => "."@,
            },
        ),
        app::RowKindView::Process => match row.pid {
            Some(pid) => match system::process_of(a.system, pid) {
                Some(p) => p.cwd,
                None => None,
            },
            None => None,
        },
        app::RowKindView::Container { .. } => None,
    }
}

/// The panel after the selected row's folder was to be opened in the editor.
pub open spec fn editor_opened(a: app::AppView, opened: Result<(), String>) -> app::AppView {
    match a.selected_row() {
        None => a,
        Some(row) => match folder_of(a, row) {
            None => a.say("no folder known for this row"@),
            Some(dir) => a.say(
                match opened {
                    Ok(_) => "opened "@ + dir,
                    Err(e) => "editor failed: "@ + e@,
                },
            ),
        },
    }
}

// ------------------------------------------------------------------ execution

fn two(a: &str, b: &str) -> (r: String)
    ensures
        r@ == a@ + b@,
{
    let mut m = a.to_owned();
    push_text(&mut m, b);
    m
}

fn start_failed(name: &str, e: &str) -> (r: String)
    ensures
        r@ == "start "@ + name@ + " failed: "@ + e@,
{
    let mut m = "start ".to_owned();
    push_text(&mut m, name);
    push_text(&mut m, " failed: ");
    push_text(&mut m, e);
    m
}

/// The number of services started so far and what is said of the one that failed.
struct Progress {
    started: u64,
    failure: Option<String>,
}

impl App {
    /// What is to be spawned to start the selected row.
    pub fn start_launch(&self) -> (r: Option<Launch>)
        requires
            self.wf(),
        ensures
            manager::opt_launch(r) == selected_launch(self@),
    {
        match self.selected_row() {
            Some(row) => {
                assert(app::row_wf(row@, self@.manager.services.len()));
                match row.kind {
                    RowKind::Service(i) => self.manager.launch(i),
                    _ => None,
                }
            },
            None => None,
        }
    }

    /// Starts the selected row, given how spawning went; see [`App::start_launch`].
    pub fn start_selected(&mut self, spawned: &Result<i32, String>, now: u64)
        requires
            old(self).wf(),
        ensures
            final(self)@ == selected_started(old(self)@, *spawned, now),
            final(self).wf(),
    {
        let ghost a = self@;
        let row = match self.selected_row() {
            Some(row) => row,
            None => {
                return;
            },
        };
        assert(app::row_wf(row@, self@.manager.services.len()));
        match row.kind {
            RowKind::Service(i) => {
                if self.manager.services[i].running() {
                    self.say("already running (k stops it)".to_owned());
                    return;
                }
                let name = row.name.clone();
                let m = match self.manager.start(i, spawned, now) {
                    Ok(_) => two("started ", name.as_str()),
                    Err(e) => start_failed(name.as_str(), e.as_str()),
                };
                proof {
                    app::more_services_keep_wf(a, self@);
                }
                self.say(m);
                self.build_rows();
            },
            _ => {
                self.say("s starts managed services only (see dev-panel.toml)".to_owned());
            },
        }
    }

    /// What is to be done next to start the stack, given the replies so far, one for each of
    /// its services in order; see [`next_start_of`].
    pub fn next_start(&self, replies: &Vec<Result<i32, String>>) -> (r: StackStep)
        ensures
            r@ == next_start_of(self@.manager, replies@),
    {
        let order = self.manager.stack_order();
        let k = replies.len();
        if k >= order.len() {
            return StackStep::Done;
        }
        for j in 0..k
            invariant
                k == replies@.len(),
                k < order@.len(),
                order@ == self@.manager.stack_order(),
                forall|x: int|
                    0 <= x < order@.len() ==> (#[trigger] order@[x]) < self@.manager.services.len(),
                forall|x: int| 0 <= x < j ==> !#[trigger] failed_at(self@.manager, replies@, x),
        {
            let i = order[j];
            assert(self@.manager.services[i as int] == self.manager.services@[i as int]@);
            if !self.manager.services[i].running() && replies[j].is_err() {
                assert(failed_at(self@.manager, replies@, j as int));
                return StackStep::Skip;
            }
        }
        match self.manager.launch(order[k]) {
            Some(l) => StackStep::Spawn(l),
            None => StackStep::Skip,
        }
    }

    fn run_start(&mut self, replies: &Vec<Result<i32, String>>, now: u64) -> (r: Progress)
        requires
            old(self).wf(),
            replies@.len() == old(self)@.manager.stack_order().len(),
        ensures
            ({
                let order = old(self)@.manager.stack_order();
                let run = start_run(old(self)@.manager, order, replies@, now, order.len());
                &&& final(self)@ == (app::AppView { manager: run.manager, ..old(self)@ })
                &&& r.started == run.started
                &&& text::opt_text(r.failure) == run.failure
            }),
            final(self).wf(),
    {
        let ghost a = self@;
        let order = self.manager.stack_order();
        let n = order.len();
        let mut p = Progress { started: 0, failure: None };
        for k in 0..n
            invariant
                n == order@.len(),
                n == replies@.len(),
                forall|j: int|
                    0 <= j < n ==> (#[trigger] order@[j]) < self@.manager.services.len(),
                self@ == (app::AppView {
                    manager: start_run(a.manager, order@, replies@, now, k as nat).manager,
                    ..a
                }),
                p.started == start_run(a.manager, order@, replies@, now, k as nat).started,
                p.started <= k,
                text::opt_text(p.failure) == start_run(
                    a.manager,
                    order@,
                    replies@,
                    now,
                    k as nat,
                ).failure,
                self.wf(),
        {
            let ghost before = self@;
            let i = order[k];
            assert(self@.manager.services[i as int] == self.manager.services@[i as int]@);
            if p.failure.is_none() && !self.manager.services[i].running() {
                let name = self.manager.services[i].cfg.name.clone();
                match self.manager.start(i, &replies[k], now) {
                    Ok(_) => {
                        p.started = p.started + 1;
                    },
                    Err(e) => {
                        p.failure = Some(start_failed(name.as_str(), e.as_str()));
                    },
                }
                proof {
                    app::more_services_keep_wf(before, self@);
                }
            }
        }
        p
    }

    /// Starts the whole stack, given how spawning each of its services went; see
    /// [`App::next_start`]. A reply for a service that runs is not looked at, nor are those
    /// after the first failure.
    pub fn start_all(&mut self, replies: &Vec<Result<i32, String>>, now: u64)
        requires
            old(self).wf(),
            replies@.len() == old(self)@.manager.stack_order().len(),
        ensures
            final(self)@ == stack_started(old(self)@, replies@, now),
            final(self).wf(),
    {
        if self.manager.services.len() == 0 {
            let mut m = "no services configured (".to_owned();
            push_text(&mut m, services::CONFIG_FILE);
            push_text(&mut m, ")");
            self.say(m);
            return;
        }
        let p = self.run_start(replies, now);
        match p.failure {
            Some(m) => {
                self.say(m);
            },
            None => {
                let mut m = "started ".to_owned();
                push_decimal(&mut m, p.started);
                push_text(&mut m, " service(s)");
                self.say(m);
                self.build_rows();
            },
        }
    }

    /// The address to open in the browser.
    pub fn browser_url(&self) -> (r: Option<String>)
        ensures
            text::opt_text(r) == url_of(self@),
    {
        match self.selected_row() {
            Some(row) => match row.port {
                Some(p) => {
                    let mut url = "http://localhost:".to_owned();
                    push_decimal(&mut url, p as u64);
                    Some(url)
                },
                None => None,
            },
            None => None,
        }
    }

    /// Reports how opening the port in the browser went; see [`App::browser_url`].
    pub fn open_browser(&mut self, opened: &Result<(), String>)
        requires
            old(self).wf(),
        ensures
            final(self)@ == browser_opened(old(self)@, *opened),
            final(self).wf(),
    {
        match self.browser_url() {
            None => {
                self.say("no port on this row".to_owned());
            },
            Some(url) => match opened {
                Ok(_) => {
                    self.say(two("opened ", url.as_str()));
                },
                Err(e) => {
                    self.say(two("open failed: ", e.as_str()));
                },
            },
        }
    }

    /// What to copy of the selected row.
    pub fn copy_text(&self, pid_first: bool) -> (r: Option<String>)
        ensures
            text::opt_text(r) == (match self@.selected_row() {
                Some(row) => copy_text_of(row, pid_first),
                None => None,
            }),
    {
        let row = match self.selected_row() {
            Some(row) => row,
            None => {
                return None;
            },
        };
        if !pid_first {
            if let Some(p) = row.port {
                return Some(decimal_string(p as u64));
            }
        }
        match row.pid {
            Some(pid) => Some(signed_string(pid)),
            None => None,
        }
    }

    /// Reports how copying went; see [`App::copy_text`].
    pub fn copy(&mut self, pid_first: bool, done: &Result<(), String>)
        requires
            old(self).wf(),
        ensures
            final(self)@ == copied(old(self)@, pid_first, *done),
            final(self).wf(),
    {
        if self.selected_row().is_none() {
            return;
        }
        match self.copy_text(pid_first) {
            None => {
                self.say("nothing to copy on this row".to_owned());
            },
            Some(t) => match done {
                Ok(_) => {
                    self.say(two("copied ", t.as_str()));
                },
                Err(e) => {
                    self.say(two("clipboard failed: ", e.as_str()));
                },
            },
        }
    }

    /// The folder to open in the editor.
    pub fn editor_dir(&self) -> (r: Option<String>)
        requires
            self.wf(),
        ensures
            text::opt_text(r) == (match self@.selected_row() {
                Some(row) => folder_of(self@, row),
                None => None,
            }),
    {
        let row = match self.selected_row() {
            Some(row) => row,
            None => {
                return None;
            },
        };
        assert(app::row_wf(row@, self@.manager.services.len()));
        match &row.kind {
            RowKind::Service(i) => match &self.manager.services[*i].cfg.cwd {
                Some(d) => Some(d.clone()),
                None => Some(".".to_owned()),
            },
            RowKind::Process => match row.pid {
                Some(pid) => match process(&self.system, pid) {
                    Some(p) => match &p.cwd {
                        Some(d) => Some(d.clone()),
                        None => None,
                    },
                    None => None,
                },
                None => None,
            },
            RowKind::Container { .. } => None,
        }
    }

    /// Reports how opening the folder in the editor went; see [`App::editor_dir`].
    pub fn open_editor(&mut self, opened: &Result<(), String>)
        requires
            old(self).wf(),
        ensures
            final(self)@ == editor_opened(old(self)@, *opened),
            final(self).wf(),
    {
        if self.selected_row().is_none() {
            return;
        }
        match self.editor_dir() {
            None => {
                self.say("no folder known for this row".to_owned());
            },
            Some(dir) => match opened {
                Ok(_) => {
                    self.say(two("opened ", dir.as_str()));
                },
                Err(e) => {
                    self.say(two("editor failed: ", e.as_str()));
                },
            },
        }
    }
}

} // verus!
