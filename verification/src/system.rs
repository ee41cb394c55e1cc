//! What is known of the system's processes.
use vstd::prelude::*;
use crate::platform;
use crate::platform::ps_cmdline;
use crate::text;
use crate::text::copy_strings;

verus! {

/// A process as the process table shows it.
pub struct Process {
    pub pid: i32,
    pub parent: Option<i32>,
    pub name: String,
    pub user: Option<String>,
    pub cmd: Vec<String>,
    pub cwd: Option<String>,
    /// How long it has been running, in seconds.
    pub run_time: u64,
    /// Its processor use in whole percent.
    pub cpu: u64,
    /// Its processor use in percent, rounded, as it is shown.
    pub cpu_text: String,
    /// Its memory in bytes.
    pub memory: u64,
    pub environ: Vec<String>,
}

/// What a [`Process`] says.
pub ghost struct ProcessView {
    pub pid: i32,
    pub parent: Option<i32>,
    pub name: Seq<char>,
    pub user: Option<Seq<char>>,
    pub cmd: Seq<Seq<char>>,
    pub cwd: Option<Seq<char>>,
    pub run_time: u64,
    pub cpu: u64,
    pub cpu_text: Seq<char>,
    pub memory: u64,
    pub environ: Seq<Seq<char>>,
}

impl View for Process {
    type V = ProcessView;

    open spec fn view(&self) -> ProcessView {
        ProcessView {
            pid: self.pid,
            parent: self.parent,
            name: self.name@,
            user: text::opt_text(self.user),
            cmd: text::texts(self.cmd@),
            cwd: text::opt_text(self.cwd),
            run_time: self.run_time,
            cpu: self.cpu,
            cpu_text: self.cpu_text@,
            memory: self.memory,
            environ: text::texts(self.environ@),
        }
    }
}

/// What a process table says.
pub open spec fn processes(v: Seq<Process>) -> Seq<ProcessView> {
    Seq::new(v.len(), |i: int| v[i]@)
}

/// What other programs printed about a process; `None` where one was not asked or could not
/// answer.
pub struct Lookup {
    pub pid: i32,
    /// What `ps` printed; see [`platform::ps_args`].
    pub ps: Option<String>,
    /// What `lsof` printed; see [`platform::lsof_cwd_args`].
    pub lsof: Option<String>,
    /// The contents of `/proc/<pid>/cgroup`.
    pub cgroup: Option<String>,
    /// What `launchctl list` printed.
    pub launchctl: Option<String>,
}

/// What a [`Lookup`] says.
pub ghost struct LookupView {
    pub pid: i32,
    pub ps: Option<Seq<char>>,
    pub lsof: Option<Seq<char>>,
    pub cgroup: Option<Seq<char>>,
    pub launchctl: Option<Seq<char>>,
}

impl View for Lookup {
    type V = LookupView;

    open spec fn view(&self) -> LookupView {
        LookupView {
            pid: self.pid,
            ps: text::opt_text(self.ps),
            lsof: text::opt_text(self.lsof),
            cgroup: text::opt_text(self.cgroup),
            launchctl: text::opt_text(self.launchctl),
        }
    }
}

/// What a list of lookups says.
pub open spec fn lookup_views(v: Seq<Lookup>) -> Seq<LookupView> {
    Seq::new(v.len(), |i: int| v[i]@)
}

/// The first process, from `from` on, with a process id.
pub open spec fn find_process(
    system: Seq<ProcessView>,
    pid: i32,
    from: int,
) -> Option<ProcessView>
    decreases system.len() - from,
{
    if from < 0 || from >= system.len() {
        None
    } else if system[from].pid == pid {
        Some(system[from])
    } else {
        find_process(system, pid, from + 1)
    }
}

/// The process with a process id.
pub open spec fn process_of(system: Seq<ProcessView>, pid: i32) -> Option<ProcessView> {
    find_process(system, pid, 0)
}

/// Whether there is a process with a process id.
pub open spec fn alive(system: Seq<ProcessView>, pid: i32) -> bool {
    process_of(system, pid) is Some
}

/// The first lookup, from `from` on, about a process; one without answers when there is none.
pub open spec fn find_lookup(lookups: Seq<LookupView>, pid: i32, from: int) -> LookupView
    decreases lookups.len() - from,
{
    if from < 0 || from >= lookups.len() {
        LookupView { pid, ps: None, lsof: None, cgroup: None, launchctl: None }
    } else if lookups[from].pid == pid {
        lookups[from]
    } else {
        find_lookup(lookups, pid, from + 1)
    }
}

/// The lookup about a process.
pub open spec fn lookup_of(lookups: Seq<LookupView>, pid: i32) -> LookupView {
    find_lookup(lookups, pid, 0)
}

/// The command line of a process: what the process table has, or else what `ps` printed.
pub open spec fn command_of(p: ProcessView, lookup: LookupView) -> Seq<Seq<char>> {
    if p.cmd.len() > 0 {
        p.cmd
    } else {
        match platform::ps_words(lookup.ps) {
            Some(words) => words,
            None => Seq::empty(),
        }
    }
}

/// The working directory of a process: what the process table has, or else what `lsof`
/// printed.
pub open spec fn cwd_of(p: Option<ProcessView>, lookup: LookupView) -> Option<Seq<char>> {
    if p is Some && p->0.cwd is Some {
        p->0.cwd
    } else {
        platform::lsof_dir(lookup.lsof)
    }
}

/// The process with a process id.
pub fn process<'a>(system: &'a Vec<Process>, pid: i32) -> (r: Option<&'a Process>)
    ensures
        match r {
            Some(p) => process_of(processes(system@), pid) == Some(p@),
            None => process_of(processes(system@), pid) is None,
        },
{
    let ghost all = processes(system@);
    for i in 0..system.len()
        invariant
            all == processes(system@),
            process_of(all, pid) == find_process(all, pid, i as int),
    {
        assert(all[i as int] == system@[i as int]@);
        if system[i].pid == pid {
            return Some(&system[i]);
        }
    }
    None
}

/// The lookup about a process.
pub fn lookup<'a>(lookups: &'a Vec<Lookup>, pid: i32) -> (r: Option<&'a Lookup>)
    ensures
        match r {
            Some(l) => lookup_of(lookup_views(lookups@), pid) == l@,
            None => lookup_of(lookup_views(lookups@), pid) == (LookupView {
                pid,
                ps: None,
                lsof: None,
                cgroup: None,
                launchctl: None,
            }),
        },
{
    let ghost all = lookup_views(lookups@);
    for i in 0..lookups.len()
        invariant
            all == lookup_views(lookups@),
            lookup_of(all, pid) == find_lookup(all, pid, i as int),
    {
        assert(all[i as int] == lookups@[i as int]@);
        if lookups[i].pid == pid {
            return Some(&lookups[i]);
        }
    }
    None
}

/// A lookup without answers.
pub fn no_lookup(pid: i32) -> (r: Lookup)
    ensures
        r@ == (LookupView { pid, ps: None, lsof: None, cgroup: None, launchctl: None }),
{
    Lookup { pid, ps: None, lsof: None, cgroup: None, launchctl: None }
}

/// The command line of a process; see [`command_of`].
pub fn command_line(p: &Process, lookup: &Lookup) -> (r: Vec<String>)
    ensures
        text::texts(r@) == command_of(p@, lookup@),
{
    if p.cmd.len() > 0 {
        return copy_strings(&p.cmd);
    }
    match ps_cmdline(&lookup.ps) {
        Some(words) => words,
        None => {
            let r: Vec<String> = Vec::new();
            assert(text::texts(r@) =~= Seq::<Seq<char>>::empty());
            r
        },
    }
}

} // verus!
