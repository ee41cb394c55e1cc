//! OS-specific glue: the commands that are run and how their answers are read.
use vstd::prelude::*;
use crate::split;
use crate::split::{copy_range, ends_with, split_at, split_lines, split_words, trimmed};
use crate::text;
use crate::text::{chars_are, chars_of, signed_string, string_of, strings};

verus! {

/// The operating systems that the panel runs on.
#[derive(Debug, Clone, Copy, PartialEq, Eq, Structural)]
pub enum Os {
    Linux,
    MacOs,
    Windows,
}

/// What a command that was run to its end gave back.
pub struct Output {
    pub success: bool,
    pub stdout: String,
    pub stderr: String,
}

/// What a command printed, or why it failed: the reason it could not be run, or what it wrote
/// to its error stream, without the white space at the two ends.
pub fn run_ok(reply: &Result<Output, String>) -> (r: Result<String, String>)
    ensures
        match *reply {
            Err(e) => r matches Err(f) && f@ == e@,
            Ok(out) => if out.success {
                r matches Ok(s) && s@ == out.stdout@
            } else {
                r matches Err(f) && f@ == split::trim(out.stderr@)
            },
        },
{
    match reply {
        Err(e) => Err(e.clone()),
        Ok(out) => if out.success {
            Ok(out.stdout.clone())
        } else {
            let chars = chars_of(out.stderr.as_str());
            let t = trimmed(chars.as_slice());
            Err(string_of(t.as_slice()))
        },
    }
}

/// The command that runs a line through the platform's shell.
pub fn shell(os: Os, cmd: &str) -> (r: Vec<String>)
    ensures
        text::texts(r@) == (if os is Windows {
            seq!["cmd"@, "/C"@, cmd@]
        } else {
            seq!["sh"@, "-c"@, cmd@]
        }),
{
    if os == Os::Windows {
        let r = strings(&["cmd", "/C", cmd]);
        assert(text::texts(r@) =~= seq!["cmd"@, "/C"@, cmd@]);
        r
    } else {
        let r = strings(&["sh", "-c", cmd]);
        assert(text::texts(r@) =~= seq!["sh"@, "-c"@, cmd@]);
        r
    }
}

/// The `ps` arguments that print the command line of a process.
pub fn ps_args(pid: i32) -> (r: Vec<String>)
    ensures
        text::texts(r@) == seq!["-p"@, text::signed_decimal(pid as int), "-o"@, "command="@],
{
    let p = signed_string(pid);
    let r = strings(&["-p", p.as_str(), "-o", "command="]);
    assert(text::texts(r@) =~= seq![
        "-p"@,
        text::signed_decimal(pid as int),
        "-o"@,
        "command="@,
    ]);
    r
}

/// The command line in what `ps` printed: its words, or `None` when it printed nothing or was
/// not run.
pub open spec fn ps_words(printed: Option<Seq<char>>) -> Option<Seq<Seq<char>>> {
    match printed {
        Some(s) => if split::trim(s).len() == 0 {
            None
        } else {
            Some(split::words(split::trim(s)))
        },
        None => None,
    }
}

/// Fallback command-line lookup, for when the process table has none.
///
/// A naive white-space split, not real argv: a quoted argument with spaces in it is cut.
pub fn ps_cmdline(printed: &Option<String>) -> (r: Option<Vec<String>>)
    ensures
        match r {
            Some(v) => ps_words(text::opt_text(*printed)) == Some(text::texts(v@)),
            None => ps_words(text::opt_text(*printed)) is None,
        },
{
    match printed {
        None => None,
        Some(s) => {
            let chars = chars_of(s.as_str());
            let line = trimmed(chars.as_slice());
            if line.len() == 0 {
                return None;
            }
            let words = split_words(line.as_slice());
            let mut out: Vec<String> = Vec::new();
            for i in 0..words.len()
                invariant
                    out@.len() == i,
                    forall|j: int| 0 <= j < i ==> (#[trigger] out@[j])@ == words@[j]@,
            {
                out.push(string_of(words[i].as_slice()));
            }
            assert(text::texts(out@) =~= text::views(words@));
            Some(out)
        },
    }
}

/// The `lsof` arguments that print the working directory of a process.
pub fn lsof_cwd_args(pid: i32) -> (r: Vec<String>)
    ensures
        text::texts(r@) == seq![
            "-a"@,
            "-p"@,
            text::signed_decimal(pid as int),
            "-d"@,
            "cwd"@,
            "-Fn"@,
        ],
{
    let p = signed_string(pid);
    let r = strings(&["-a", "-p", p.as_str(), "-d", "cwd", "-Fn"]);
    assert(text::texts(r@) =~= seq![
        "-a"@,
        "-p"@,
        text::signed_decimal(pid as int),
        "-d"@,
        "cwd"@,
        "-Fn"@,
    ]);
    r
}

/// The rest of the first line, from `from` on, that begins with `n`.
pub open spec fn first_name_line(lines: Seq<Seq<char>>, from: int) -> Option<Seq<char>>
    decreases lines.len() - from,
{
    if from < 0 || from >= lines.len() {
        None
    } else if lines[from].len() > 0 && lines[from][0] == 'n' {
        Some(lines[from].skip(1))
    } else {
        first_name_line(lines, from + 1)
    }
}

/// The working directory in what `lsof` printed: the first field tagged `n`.
pub open spec fn lsof_dir(printed: Option<Seq<char>>) -> Option<Seq<char>> {
    match printed {
        Some(s) => first_name_line(split::lines(s), 0),
        None => None,
    }
}

/// Fallback working-directory lookup, for when the process table has none.
pub fn lsof_cwd(printed: &Option<String>) -> (r: Option<String>)
    ensures
        text::opt_text(r) == lsof_dir(text::opt_text(*printed)),
{
    match printed {
        None => None,
        Some(s) => {
            let chars = chars_of(s.as_str());
            let lines = split_lines(chars.as_slice());
            let ghost all = text::views(lines@);
            for i in 0..lines.len()
                invariant
                    all == text::views(lines@),
                    text::opt_text(*printed) == Some(s@),
                    all == split::lines(s@),
                    first_name_line(all, 0) == first_name_line(all, i as int),
            {
                let line = &lines[i];
                assert(line@ == all[i as int]);
                if line.len() > 0 && line[0] == 'n' {
                    let tail = copy_range(line.as_slice(), 1, line.len());
                    assert(tail@ =~= all[i as int].skip(1));
                    return Some(string_of(tail.as_slice()));
                }
            }
            None
        },
    }
}

/// The `taskkill` arguments that end a process, by force or not.
pub fn taskkill_args(pid: i32, force: bool) -> (r: Vec<String>)
    ensures
        text::texts(r@) == (if force {
            seq!["/F"@, "/PID"@, text::signed_decimal(pid as int)]
        } else {
            seq!["/PID"@, text::signed_decimal(pid as int)]
        }),
{
    let p = signed_string(pid);
    if force {
        let r = strings(&["/F", "/PID", p.as_str()]);
        assert(text::texts(r@) =~= seq!["/F"@, "/PID"@, text::signed_decimal(pid as int)]);
        r
    } else {
        let r = strings(&["/PID", p.as_str()]);
        assert(text::texts(r@) =~= seq!["/PID"@, text::signed_decimal(pid as int)]);
        r
    }
}

/// The command of the system opener for a URL or a path.
pub open spec fn opener(os: Os, target: Seq<char>) -> Seq<Seq<char>> {
    match os {
        Os::MacOs => seq!["open"@, target],
        Os::Linux => seq!["xdg-open"@, target],
        Os::Windows => seq!["cmd"@, "/C"@, "start"@, ""@, target],
    }
}

/// The command that opens a URL or file path with the system opener.
pub fn open_external(os: Os, target: &str) -> (r: Vec<String>)
    ensures
        text::texts(r@) == opener(os, target@),
{
    match os {
        Os::MacOs => {
            let r = strings(&["open", target]);
            assert(text::texts(r@) =~= opener(os, target@));
            r
        },
        Os::Linux => {
            let r = strings(&["xdg-open", target]);
            assert(text::texts(r@) =~= opener(os, target@));
            r
        },
        Os::Windows => {
            let r = strings(&["cmd", "/C", "start", "", target]);
            assert(text::texts(r@) =~= opener(os, target@));
            r
        },
    }
}

/// The command that opens a folder in the editor, and the one that takes its place when the
/// first cannot be run.
pub fn open_in_editor(os: Os, path: &str) -> (r: (Vec<String>, Vec<String>))
    ensures
        text::texts(r.0@) == seq!["code"@, path@],
        text::texts(r.1@) == opener(os, path@),
{
    let first = strings(&["code", path]);
    assert(text::texts(first@) =~= seq!["code"@, path@]);
    (first, open_external(os, path))
}

/// What a clipboard tool that was given the text made of it.
pub enum PipeReply {
    /// It took the text and ended well.
    Done,
    /// There is no such program; the error's text.
    NotFound(String),
    /// It could not be run to its end; the error's text.
    Failed(String),
    /// It ended with a failure of its own.
    NonZero,
}

/// How many clipboard tools there are to try.
pub open spec fn clipboard_count(os: Os) -> nat {
    if os is Linux {
        3
    } else {
        1
    }
}

/// The command of the clipboard tool at a place in the list.
pub open spec fn clipboard_command(os: Os, i: int) -> Seq<Seq<char>> {
    match os {
        Os::MacOs => seq!["pbcopy"@],
        Os::Windows => seq!["clip"@],
        Os::Linux => if i == 0 {
            seq!["wl-copy"@]
        } else if i == 1 {
            seq!["xclip"@, "-selection"@, "clipboard"@]
        } else {
            seq!["xsel"@, "-ib"@]
        },
    }
}

/// The clipboard tool to try after `tried` of them, or `None` when all have been.
pub fn clipboard_tool(os: Os, tried: usize) -> (r: Option<Vec<String>>)
    ensures
        r is Some <==> tried < clipboard_count(os),
        r matches Some(v) ==> text::texts(v@) == clipboard_command(os, tried as int),
{
    let r = match os {
        Os::MacOs => if tried == 0 {
            strings(&["pbcopy"])
        } else {
            return None;
        },
        Os::Windows => if tried == 0 {
            strings(&["clip"])
        } else {
            return None;
        },
        Os::Linux => if tried == 0 {
            strings(&["wl-copy"])
        } else if tried == 1 {
            strings(&["xclip", "-selection", "clipboard"])
        } else if tried == 2 {
            strings(&["xsel", "-ib"])
        } else {
            return None;
        },
    };
    assert(text::texts(r@) =~= clipboard_command(os, tried as int));
    Some(r)
}

/// What copying ends with once the tool at place `tried` has answered: `None` when the next
/// one is to be tried. On Linux a tool that is not installed gives way to the next; any other
/// answer is final.
pub fn copy_clipboard(os: Os, tried: usize, reply: &PipeReply) -> (r: Option<Result<(), String>>)
    ensures
        match *reply {
            PipeReply::Done => r == Some(Ok::<(), String>(())),
            PipeReply::Failed(e) => r matches Some(Err(f)) && f@ == e@,
            PipeReply::NonZero => r matches Some(Err(f)) && f@ == "clipboard tool exited non-zero"@,
            PipeReply::NotFound(e) => if os !is Linux {
                r matches Some(Err(f)) && f@ == e@
            } else if tried < 2 {
                r is None
            } else {
                r matches Some(Err(f)) && f@ == "no clipboard tool (wl-copy/xclip/xsel)"@
            },
        },
{
    match reply {
        PipeReply::Done => Some(Ok(())),
        PipeReply::Failed(e) => Some(Err(e.clone())),
        PipeReply::NonZero => Some(Err("clipboard tool exited non-zero".to_owned())),
        PipeReply::NotFound(e) => if os != Os::Linux {
            Some(Err(e.clone()))
        } else if tried < 2 {
            None
        } else {
            Some(Err("no clipboard tool (wl-copy/xclip/xsel)".to_owned()))
        },
    }
}

/// The last piece of a path, from `from` down to the first, that names a systemd service.
pub open spec fn service_piece(parts: Seq<Seq<char>>, from: int) -> Option<Seq<char>>
    decreases from,
{
    if from <= 0 || from > parts.len() {
        None
    } else if split::ends(parts[from - 1], ".service"@) {
        Some(parts[from - 1])
    } else {
        service_piece(parts, from - 1)
    }
}

/// The systemd unit that a line of `/proc/<pid>/cgroup` names: the last piece between slashes
/// that ends in `.service`.
pub open spec fn line_unit(line: Seq<char>) -> Option<Seq<char>> {
    service_piece(split::split(line, '/'), split::split(line, '/').len() as int)
}

/// The unit that the first line to name one, from `from` on, names.
pub open spec fn lines_unit(lines: Seq<Seq<char>>, from: int) -> Option<Seq<char>>
    decreases lines.len() - from,
{
    if from < 0 || from >= lines.len() {
        None
    } else if line_unit(lines[from]) is Some {
        line_unit(lines[from])
    } else {
        lines_unit(lines, from + 1)
    }
}

/// The systemd unit in the contents of `/proc/<pid>/cgroup`.
pub open spec fn cgroup_unit(s: Seq<char>) -> Option<Seq<char>> {
    lines_unit(split::lines(s), 0)
}

/// Extracts a systemd unit name from `/proc/<pid>/cgroup` contents.
pub fn parse_cgroup_unit(s: &str) -> (r: Option<String>)
    ensures
        text::opt_text(r) == cgroup_unit(s@),
{
    let chars = chars_of(s);
    let lines = split_lines(chars.as_slice());
    let ghost all = text::views(lines@);
    for i in 0..lines.len()
        invariant
            all == text::views(lines@),
            all == split::lines(s@),
            lines_unit(all, 0) == lines_unit(all, i as int),
    {
        let parts = split_at(lines[i].as_slice(), '/');
        let ghost pv = text::views(parts@);
        let mut k: usize = parts.len();
        assert(all[i as int] == lines@[i as int]@);
        while k > 0
            invariant
                pv == text::views(parts@),
                all == split::lines(s@),
                k <= parts@.len(),
                0 <= i < all.len(),
                line_unit(all[i as int]) == service_piece(pv, k as int),
                lines_unit(all, 0) == lines_unit(all, i as int),
            decreases k,
        {
            assert(pv[k - 1] == parts@[k - 1]@);
            if ends_with(parts[k - 1].as_slice(), ".service") {
                return Some(string_of(parts[k - 1].as_slice()));
            }
            k -= 1;
        }
    }
    None
}

/// The systemd unit of a process, from the contents of its cgroup file when that could be
/// read. Only Linux has systemd.
pub open spec fn unit_of(os: Os, cgroup: Option<Seq<char>>) -> Option<Seq<char>> {
    match cgroup {
        Some(s) => if os is Linux {
            cgroup_unit(s)
        } else {
            None
        },
        None => None,
    }
}

/// The systemd unit of a process; see [`unit_of`].
pub fn systemd_unit(os: Os, cgroup: &Option<String>) -> (r: Option<String>)
    ensures
        text::opt_text(r) == unit_of(os, text::opt_text(*cgroup)),
{
    match cgroup {
        Some(s) => if os == Os::Linux {
            parse_cgroup_unit(s.as_str())
        } else {
            None
        },
        None => None,
    }
}

/// The command that restarts a systemd unit, where there is systemd.
pub fn systemctl_restart(os: Os, unit: &str) -> (r: Result<Vec<String>, String>)
    ensures
        os is Linux ==> (r matches Ok(v) && text::texts(v@) == seq![
            "systemctl"@,
            "restart"@,
            unit@,
        ]),
        os !is Linux ==> (r matches Err(e) && e@ == "systemd restart is Linux-only"@),
{
    if os == Os::Linux {
        let r = strings(&["systemctl", "restart", unit]);
        assert(text::texts(r@) =~= seq!["systemctl"@, "restart"@, unit@]);
        Ok(r)
    } else {
        Err("systemd restart is Linux-only".to_owned())
    }
}

/// The label that a line of `launchctl list` gives for a process: its three fields are the
/// process, its last exit status and the label.
pub open spec fn launchctl_line(line: Seq<char>, pid: i32) -> Option<Seq<char>> {
    let f = split::words(line);
    if f.len() >= 3 && f[0] == text::signed_decimal(pid as int) {
        Some(f[2])
    } else {
        None
    }
}

/// The label in the first line, from `from` on, about the process.
pub open spec fn launchctl_lines(lines: Seq<Seq<char>>, pid: i32, from: int) -> Option<Seq<char>>
    decreases lines.len() - from,
{
    if from < 0 || from >= lines.len() {
        None
    } else if launchctl_line(lines[from], pid) is Some {
        launchctl_line(lines[from], pid)
    } else {
        launchctl_lines(lines, pid, from + 1)
    }
}

/// The launchd label of a process, from what `launchctl list` printed when it was run. Only
/// macOS has launchd.
pub open spec fn label_of(os: Os, listing: Option<Seq<char>>, pid: i32) -> Option<Seq<char>> {
    match listing {
        Some(s) => if os is MacOs {
            launchctl_lines(split::lines(s), pid, 0)
        } else {
            None
        },
        None => None,
    }
}

/// The launchd label of a process; see [`label_of`].
pub fn launchd_label(os: Os, listing: &Option<String>, pid: i32) -> (r: Option<String>)
    ensures
        text::opt_text(r) == label_of(os, text::opt_text(*listing), pid),
{
    let s = match listing {
        Some(s) => s,
        None => {
            return None;
        },
    };
    if os != Os::MacOs {
        return None;
    }
    let chars = chars_of(s.as_str());
    let lines = split_lines(chars.as_slice());
    let ghost all = text::views(lines@);
    let wanted = signed_string(pid);
    for i in 0..lines.len()
        invariant
            all == text::views(lines@),
            os is MacOs,
            text::opt_text(*listing) == Some(s@),
            all == split::lines(s@),
            wanted@ == text::signed_decimal(pid as int),
            launchctl_lines(all, pid, 0) == launchctl_lines(all, pid, i as int),
    {
        let f = split_words(lines[i].as_slice());
        let ghost fv = text::views(f@);
        assert(all[i as int] == lines@[i as int]@);
        if f.len() >= 3 {
            assert(fv[0] == f@[0]@ && fv[2] == f@[2]@);
            if chars_are(&f[0], wanted.as_str()) {
                return Some(string_of(f[2].as_slice()));
            }
        }
    }
    None
}

/// The command that restarts a launchd agent, where there is launchd.
pub fn launchctl_restart(os: Os, label: &str) -> (r: Result<Vec<String>, String>)
    ensures
        os is MacOs ==> (r matches Ok(v) && text::texts(v@) == seq![
            "launchctl"@,
            "kickstart"@,
            "-k"@,
            label@,
        ]),
        os !is MacOs ==> (r matches Err(e) && e@ == "launchd restart is macOS-only"@),
{
    if os == Os::MacOs {
        let r = strings(&["launchctl", "kickstart", "-k", label]);
        assert(text::texts(r@) =~= seq!["launchctl"@, "kickstart"@, "-k"@, label@]);
        Ok(r)
    } else {
        Err("launchd restart is macOS-only".to_owned())
    }
}

} // verus!
