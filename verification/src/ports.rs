//! Listening-port discovery: what the system's port tools print, read into entries.
use std::collections::HashMap;
use vstd::prelude::*;
use crate::split;
use crate::split::{copy_range, ends_with, split_at, split_lines, split_words, starts_with};
use crate::text;
use crate::text::{chars_are, chars_of, parse_i32, parse_number, parse_u16, string_of};

verus! {

broadcast use vstd::std_specs::hash::group_hash_axioms;

/// A listening port and the process that holds it.
#[derive(Debug, Clone)]
pub struct PortEntry {
    pub port: u16,
    pub pid: i32,
    pub name: String,
    pub user: String,
    /// Full command line, enriched from the process table after parsing. Empty until then.
    pub cmd: String,
}

/// What a [`PortEntry`] says.
pub ghost struct PortEntryView {
    pub port: u16,
    pub pid: i32,
    pub name: Seq<char>,
    pub user: Seq<char>,
    pub cmd: Seq<char>,
}

impl View for PortEntry {
    type V = PortEntryView;

    open spec fn view(&self) -> PortEntryView {
        PortEntryView {
            port: self.port,
            pid: self.pid,
            name: self.name@,
            user: self.user@,
            cmd: self.cmd@,
        }
    }
}

/// What a list of entries says.
pub open spec fn entries(v: Seq<PortEntry>) -> Seq<PortEntryView> {
    Seq::new(v.len(), |i: int| v[i]@)
}

/// An entry of which only the port and the process are known.
pub open spec fn bare(port: u16, pid: i32) -> PortEntryView {
    PortEntryView {
        port,
        pid,
        name: Seq::empty(),
        user: Seq::empty(),
        cmd: Seq::empty(),
    }
}

impl Default for PortEntry {
    fn default() -> (r: Self)
        ensures
            r@ == bare(0, 0),
    {
        PortEntry {
            port: 0,
            pid: 0,
            name: String::new(),
            user: String::new(),
            cmd: String::new(),
        }
    }
}

impl PortEntry {
    /// A copy of an entry.
    pub fn copy(&self) -> (r: Self)
        ensures
            r@ == self@,
    {
        PortEntry {
            port: self.port,
            pid: self.pid,
            name: self.name.clone(),
            user: self.user.clone(),
            cmd: self.cmd.clone(),
        }
    }
}

// ------------------------------------------------------------------ order

/// The order of two entries: by process and then by port, or by port and then by process.
pub open spec fn precedes(a: PortEntryView, b: PortEntryView, by_pid: bool) -> bool {
    if by_pid {
        a.pid < b.pid || (a.pid == b.pid && a.port < b.port)
    } else {
        a.port < b.port || (a.port == b.port && a.pid < b.pid)
    }
}

/// Whether two entries are about the same process on the same port.
pub open spec fn same_socket(a: PortEntryView, b: PortEntryView) -> bool {
    a.pid == b.pid && a.port == b.port
}

/// Whether `e` is the first entry of `raw` about its process and port.
#[verifier::opaque]
pub open spec fn is_first(raw: Seq<PortEntryView>, e: PortEntryView) -> bool {
    exists|k: int|
        0 <= k < raw.len() && #[trigger] raw[k] == e && forall|m: int|
            0 <= m < k ==> !same_socket(#[trigger] raw[m], e)
}

/// Whether some entry of a list is about the process and port of `e`.
#[verifier::opaque]
pub open spec fn lists(out: Seq<PortEntryView>, e: PortEntryView) -> bool {
    exists|i: int| 0 <= i < out.len() && same_socket(#[trigger] out[i], e)
}

/// Whether every entry of a list comes before those that stand after it.
pub open spec fn ascending(out: Seq<PortEntryView>, by_pid: bool) -> bool {
    forall|i: int, j: int|
        0 <= i < j < out.len() ==> precedes(#[trigger] out[i], #[trigger] out[j], by_pid)
}

/// Whether `out` lists the processes and ports of `raw`, each once, in order, each as the
/// first entry about it has it.
pub open spec fn sorted_unique(
    out: Seq<PortEntryView>,
    raw: Seq<PortEntryView>,
    by_pid: bool,
) -> bool {
    &&& ascending(out, by_pid)
    &&& forall|i: int| 0 <= i < out.len() ==> is_first(raw, #[trigger] out[i])
    &&& forall|k: int| 0 <= k < raw.len() ==> lists(out, #[trigger] raw[k])
}

pub proof fn lemma_first_witness(raw: Seq<PortEntryView>, x: PortEntryView) -> (k: int)
    requires
        is_first(raw, x),
    ensures
        0 <= k < raw.len(),
        raw[k] == x,
        forall|m: int| 0 <= m < k ==> !same_socket(#[trigger] raw[m], x),
{
    reveal(is_first);
    choose|k: int|
        0 <= k < raw.len() && #[trigger] raw[k] == x && forall|m: int|
            0 <= m < k ==> !same_socket(#[trigger] raw[m], x)
}

proof fn lemma_first_at(raw: Seq<PortEntryView>, x: PortEntryView, k: int)
    requires
        0 <= k < raw.len(),
        raw[k] == x,
        forall|m: int| 0 <= m < k ==> !same_socket(#[trigger] raw[m], x),
    ensures
        is_first(raw, x),
{
    reveal(is_first);
}

pub proof fn lemma_lists_witness(out: Seq<PortEntryView>, e: PortEntryView) -> (i: int)
    requires
        lists(out, e),
    ensures
        0 <= i < out.len(),
        same_socket(out[i], e),
{
    reveal(lists);
    choose|i: int| 0 <= i < out.len() && same_socket(#[trigger] out[i], e)
}

proof fn lemma_lists_at(out: Seq<PortEntryView>, e: PortEntryView, i: int)
    requires
        0 <= i < out.len(),
        same_socket(out[i], e),
    ensures
        lists(out, e),
{
    reveal(lists);
}

proof fn lemma_first(raw: Seq<PortEntryView>, x: PortEntryView, y: PortEntryView)
    requires
        is_first(raw, x),
        is_first(raw, y),
        same_socket(x, y),
    ensures
        x == y,
{
    let k = lemma_first_witness(raw, x);
    let l = lemma_first_witness(raw, y);
    if k < l {
        assert(!same_socket(raw[k], y));
    } else if l < k {
        assert(!same_socket(raw[l], x));
    }
}

proof fn lemma_listed(
    a: Seq<PortEntryView>,
    b: Seq<PortEntryView>,
    raw: Seq<PortEntryView>,
    by_pid: bool,
    i: int,
) -> (j: int)
    requires
        sorted_unique(a, raw, by_pid),
        sorted_unique(b, raw, by_pid),
        0 <= i < a.len(),
    ensures
        0 <= j < b.len(),
        a[i] == b[j],
{
    let k = lemma_first_witness(raw, a[i]);
    let j = lemma_lists_witness(b, raw[k]);
    lemma_first(raw, a[i], b[j]);
    j
}

proof fn lemma_prefix(
    a: Seq<PortEntryView>,
    b: Seq<PortEntryView>,
    raw: Seq<PortEntryView>,
    by_pid: bool,
    n: int,
)
    requires
        sorted_unique(a, raw, by_pid),
        sorted_unique(b, raw, by_pid),
        0 <= n <= a.len(),
    ensures
        n <= b.len(),
        forall|i: int| 0 <= i < n ==> a[i] == b[i],
    decreases n,
{
    if n > 0 {
        lemma_prefix(a, b, raw, by_pid, n - 1);
        let j = lemma_listed(a, b, raw, by_pid, n - 1);
        if j < n - 1 {
            assert(precedes(a[j], a[n - 1], by_pid));
        }
        assert(j >= n - 1);
        if j > n - 1 {
            assert(precedes(b[n - 1], b[j], by_pid));
            let i = lemma_listed(b, a, raw, by_pid, n - 1);
            if i < n - 1 {
                assert(precedes(b[i], b[n - 1], by_pid));
            } else if i > n - 1 {
                assert(precedes(a[n - 1], a[i], by_pid));
            }
        }
    }
}

/// There is only one such list.
pub proof fn sorted_unique_is_unique(
    a: Seq<PortEntryView>,
    b: Seq<PortEntryView>,
    raw: Seq<PortEntryView>,
    by_pid: bool,
)
    requires
        sorted_unique(a, raw, by_pid),
        sorted_unique(b, raw, by_pid),
    ensures
        a == b,
{
    lemma_prefix(a, b, raw, by_pid, a.len() as int);
    lemma_prefix(b, a, raw, by_pid, b.len() as int);
    assert(a =~= b);
}

fn before_entry(a: &PortEntry, b: &PortEntry, by_pid: bool) -> (r: bool)
    ensures
        r == precedes(a@, b@, by_pid),
{
    if by_pid {
        a.pid < b.pid || (a.pid == b.pid && a.port < b.port)
    } else {
        a.port < b.port || (a.port == b.port && a.pid < b.pid)
    }
}

proof fn lemma_first_grows(raw: Seq<PortEntryView>, e: PortEntryView, x: PortEntryView)
    requires
        is_first(raw, x),
    ensures
        is_first(raw.push(e), x),
{
    let now = raw.push(e);
    let k = lemma_first_witness(raw, x);
    assert forall|m: int| 0 <= m < k implies !same_socket(#[trigger] now[m], x) by {
        assert(raw[m] == now[m]);
    }
    lemma_first_at(now, x, k);
}

proof fn lemma_known(
    kept: Seq<PortEntryView>,
    raw: Seq<PortEntryView>,
    e: PortEntryView,
    by_pid: bool,
    j: int,
)
    requires
        sorted_unique(kept, raw, by_pid),
        0 <= j < kept.len(),
        same_socket(kept[j], e),
    ensures
        sorted_unique(kept, raw.push(e), by_pid),
{
    let now = raw.push(e);
    assert forall|i: int| 0 <= i < kept.len() implies is_first(now, #[trigger] kept[i]) by {
        lemma_first_grows(raw, e, kept[i]);
    }
    assert forall|k: int| 0 <= k < now.len() implies lists(kept, #[trigger] now[k]) by {
        if k < raw.len() {
            assert(lists(kept, raw[k]));
        } else {
            lemma_lists_at(kept, e, j);
        }
    }
}

proof fn lemma_insert(
    kept: Seq<PortEntryView>,
    raw: Seq<PortEntryView>,
    e: PortEntryView,
    by_pid: bool,
    j: int,
)
    requires
        sorted_unique(kept, raw, by_pid),
        0 <= j <= kept.len(),
        forall|m: int| 0 <= m < j ==> precedes(#[trigger] kept[m], e, by_pid),
        j < kept.len() ==> !precedes(kept[j], e, by_pid) && !same_socket(kept[j], e),
    ensures
        sorted_unique(kept.insert(j, e), raw.push(e), by_pid),
{
    let now = raw.push(e);
    let grown = kept.insert(j, e);
    assert forall|m: int| j <= m < kept.len() implies precedes(e, #[trigger] kept[m], by_pid) by {
        if m > j {
            assert(precedes(kept[j], kept[m], by_pid));
        }
    }
    assert forall|a: int, b: int| 0 <= a < b < grown.len() implies precedes(
        #[trigger] grown[a],
        #[trigger] grown[b],
        by_pid,
    ) by {
        let x = if a < j {
            a
        } else {
            a - 1
        };
        let y = if b < j {
            b
        } else {
            b - 1
        };
        if a != j && b != j {
            assert(precedes(kept[x], kept[y], by_pid));
        } else if a == j {
            assert(grown[b] == kept[y]);
        } else {
            assert(grown[a] == kept[x]);
        }
    }
    assert forall|m: int| 0 <= m < raw.len() implies !same_socket(#[trigger] now[m], e) by {
        let q = lemma_lists_witness(kept, raw[m]);
        if q < j {
            assert(precedes(kept[q], e, by_pid));
        } else {
            assert(precedes(e, kept[q], by_pid));
        }
    }
    lemma_first_at(now, e, raw.len() as int);
    assert forall|a: int| 0 <= a < grown.len() implies is_first(now, #[trigger] grown[a]) by {
        if a < j {
            lemma_first_grows(raw, e, kept[a]);
        } else if a > j {
            lemma_first_grows(raw, e, kept[a - 1]);
        }
    }
    assert forall|k: int| 0 <= k < now.len() implies lists(grown, #[trigger] now[k]) by {
        if k < raw.len() {
            let q = lemma_lists_witness(kept, raw[k]);
            lemma_lists_at(
                grown,
                now[k],
                if q < j {
                    q
                } else {
                    q + 1
                },
            );
        } else {
            lemma_lists_at(grown, e, j);
        }
    }
}

/// Puts entries in order and keeps, of those about one process and port, the first.
fn sort_unique(raw: Vec<PortEntry>, by_pid: bool) -> (r: Vec<PortEntry>)
    ensures
        sorted_unique(entries(r@), entries(raw@), by_pid),
{
    let ghost all = entries(raw@);
    let mut out: Vec<PortEntry> = Vec::new();
    for i in 0..raw.len()
        invariant
            all == entries(raw@),
            sorted_unique(entries(out@), all.take(i as int), by_pid),
    {
        let ghost kept = entries(out@);
        let ghost ev = all[i as int];
        let e = raw[i].copy();
        let mut j: usize = 0;
        while j < out.len() && before_entry(&out[j], &e, by_pid)
            invariant
                j <= out@.len(),
                e@ == ev,
                kept == entries(out@),
                forall|m: int| 0 <= m < j ==> precedes(#[trigger] kept[m], ev, by_pid),
            decreases out@.len() - j,
        {
            assert(kept[j as int] == out@[j as int]@);
            j += 1;
        }
        proof {
            assert(all.take(i + 1) =~= all.take(i as int).push(ev));
            if j < out@.len() {
                assert(kept[j as int] == out@[j as int]@);
            }
        }
        if j < out.len() && out[j].pid == e.pid && out[j].port == e.port {
            proof {
                lemma_known(kept, all.take(i as int), ev, by_pid, j as int);
            }
        } else {
            out.insert(j, e);
            proof {
                lemma_insert(kept, all.take(i as int), ev, by_pid, j as int);
                assert(entries(out@) =~= kept.insert(j as int, ev));
            }
        }
    }
    assert(all.take(raw@.len() as int) =~= all);
    out
}

// ------------------------------------------------------------------ lsof

/// What has been read of `lsof -F` output so far: the process, command and user of the block
/// at hand, and the entries found.
pub ghost struct Lsof {
    pub pid: i32,
    pub name: Seq<char>,
    pub user: Seq<char>,
    pub found: Seq<PortEntryView>,
}

/// What one more line of `lsof -F` output adds. The first character tells the field: `p`
/// starts a process, `c` its command name, `L` its user, `n` an address whose part after the
/// last colon is the port.
pub open spec fn lsof_line(st: Lsof, line: Seq<char>) -> Lsof {
    let val = split::rest(line);
    if line.len() == 0 {
        st
    } else if line[0] == 'p' {
        Lsof {
            pid: match text::parse_i32_spec(val) {
                Some(v) => v as i32,
                None => 0,
            },
            ..st
        }
    } else if line[0] == 'c' {
        Lsof { name: val, ..st }
    } else if line[0] == 'L' {
        Lsof { user: val, ..st }
    } else if line[0] == 'n' {
        match text::parse_unsigned(split::after_last(val, ':'), 10, 0xffff) {
            Some(port) => Lsof {
                found: st.found.push(
                    PortEntryView {
                        port: port as u16,
                        pid: st.pid,
                        name: st.name,
                        user: st.user,
                        cmd: Seq::empty(),
                    },
                ),
                ..st
            },
            None => st,
        }
    } else {
        st
    }
}

/// What lines of `lsof -F` output say, read from the first to the last.
pub open spec fn lsof_lines(lines: Seq<Seq<char>>) -> Lsof
    decreases lines.len(),
{
    if lines.len() == 0 {
        Lsof { pid: 0, name: Seq::empty(), user: Seq::empty(), found: Seq::empty() }
    } else {
        lsof_line(lsof_lines(lines.drop_last()), lines.last())
    }
}

/// The entries of `lsof -F` output, in the order in which they stand there.
pub open spec fn lsof_entries(s: Seq<char>) -> Seq<PortEntryView> {
    lsof_lines(split::lines(s)).found
}

/// Whether the tag of every line is a single byte.
pub open spec fn tags_are_ascii(s: Seq<char>) -> bool {
    forall|i: int|
        0 <= i < split::lines(s).len() && (#[trigger] split::lines(s)[i]).len() > 0
            ==> split::lines(s)[i][0] < '\u{80}'
}

/// Reads `lsof -F` field output: one field per line, the first character is the tag. The
/// entries come back in order of process and port, each pair once.
pub fn parse_lsof(s: &str) -> (r: Vec<PortEntry>)
    requires
        tags_are_ascii(s@),
    ensures
        sorted_unique(entries(r@), lsof_entries(s@), true),
{
    let chars = chars_of(s);
    let lines = split_lines(chars.as_slice());
    let ghost all = text::views(lines@);
    let mut found: Vec<PortEntry> = Vec::new();
    let mut pid: i32 = 0;
    let mut name = String::new();
    let mut user = String::new();
    proof {
        assert(all.take(0) =~= Seq::<Seq<char>>::empty());
        assert(entries(found@) =~= Seq::<PortEntryView>::empty());
    }
    for i in 0..lines.len()
        invariant
            all == text::views(lines@),
            lsof_lines(all.take(i as int)) == (Lsof {
                pid,
                name: name@,
                user: user@,
                found: entries(found@),
            }),
    {
        let line = &lines[i];
        let ghost l = all[i as int];
        let ghost st = lsof_lines(all.take(i as int));
        proof {
            assert(all.take(i + 1).drop_last() =~= all.take(i as int));
            assert(all.take(i + 1).last() == l);
            assert(l == line@);
        }
        if line.len() > 0 {
            let tag = line[0];
            let val = copy_range(line.as_slice(), 1, line.len());
            assert(val@ =~= split::rest(l));
            if tag == 'p' {
                pid = match parse_i32(val.as_slice()) {
                    Some(v) => v,
                    None => 0,
                };
            } else if tag == 'c' {
                name = string_of(val.as_slice());
            } else if tag == 'L' {
                user = string_of(val.as_slice());
            } else if tag == 'n' {
                let last = last_piece(val.as_slice(), ':');
                if let Some(port) = parse_u16(last.as_slice()) {
                    let ghost earlier = entries(found@);
                    let e = PortEntry {
                        port,
                        pid,
                        name: name.clone(),
                        user: user.clone(),
                        cmd: String::new(),
                    };
                    let ghost ev = e@;
                    found.push(e);
                    proof {
                        assert(entries(found@) =~= earlier.push(ev));
                        assert(ev.cmd =~= Seq::<char>::empty());
                    }
                }
            }
        }
    }
    assert(all.take(lines@.len() as int) =~= all);
    sort_unique(found, true)
}

/// The piece after the last separator; see [`split::after_last`].
fn last_piece(s: &[char], sep: char) -> (r: Vec<char>)
    ensures
        r@ == split::after_last(s@, sep),
{
    let mut parts = split_at(s, sep);
    let ghost all = text::views(parts@);
    match parts.pop() {
        Some(p) => {
            assert(p@ == all.last());
            p
        },
        None => Vec::new(),
    }
}

// ------------------------------------------------------------------ /proc/net/tcp

/// What a line of `/proc/net/tcp` says of a listening socket: its inode and its port. The
/// fields are separated by white space; the fourth is the state, `0A` when listening, the
/// second the local address, whose part after the last colon is the port in hexadecimal, and
/// the tenth the inode.
pub open spec fn proc_line(line: Seq<char>) -> Option<(u64, u16)> {
    let f = split::words(line);
    if f.len() < 10 || f[3] != "0A"@ {
        None
    } else {
        match (
            text::parse_unsigned(split::after_last(f[1], ':'), 16, 0xffff),
            text::parse_unsigned(f[9], 10, u64::MAX as nat),
        ) {
            (Some(port), Some(inode)) => Some((inode as u64, port as u16)),
            _ => None,
        }
    }
}

/// The listening sockets of a `/proc/net/tcp` table, its heading line left out.
pub open spec fn proc_sockets(s: Seq<char>) -> Seq<(u64, u16)> {
    split::filter_map(split::rest(split::lines(s)), |l: Seq<char>| proc_line(l))
}

/// Reads one line of `/proc/net/tcp`; see [`proc_line`].
fn parse_proc_line(line: &Vec<char>) -> (r: Option<(u64, u16)>)
    ensures
        r == proc_line(line@),
{
    let f = split_words(line.as_slice());
    let ghost fv = text::views(f@);
    if f.len() < 10 {
        return None;
    }
    assert(fv[3] == f@[3]@ && fv[1] == f@[1]@ && fv[9] == f@[9]@);
    if !chars_are(&f[3], "0A") {
        return None;
    }
    let local = last_piece(f[1].as_slice(), ':');
    let port = match parse_number(local.as_slice(), 16, 0xffff) {
        Some(p) => p as u16,
        None => {
            return None;
        },
    };
    match parse_number(f[9].as_slice(), 10, u64::MAX) {
        Some(inode) => Some((inode, port)),
        None => None,
    }
}

/// Reads `/proc/net/tcp` into the inodes and ports of the sockets that listen.
pub fn parse_proc_net_tcp(s: &str) -> (r: Vec<(u64, u16)>)
    ensures
        r@ == proc_sockets(s@),
{
    let chars = chars_of(s);
    let lines = split_lines(chars.as_slice());
    let ghost all = text::views(lines@);
    let ghost body = split::rest(all);
    let ghost f = |l: Seq<char>| proc_line(l);
    let mut out: Vec<(u64, u16)> = Vec::new();
    let mut i: usize = 1;
    assert(body.take(0) =~= Seq::<Seq<char>>::empty());
    while i < lines.len()
        invariant
            all == text::views(lines@),
            body == split::rest(all),
            f == (|l: Seq<char>| proc_line(l)),
            1 <= i,
            i <= lines@.len() || i == 1,
            out@ == split::filter_map(body.take(i - 1), f),
        decreases lines@.len() - i,
    {
        proof {
            assert(body.take(i as int).drop_last() =~= body.take(i - 1));
            assert(body.take(i as int).last() == lines@[i as int]@);
        }
        if let Some(pair) = parse_proc_line(&lines[i]) {
            out.push(pair);
        }
        i += 1;
    }
    proof {
        if lines@.len() == 0 {
            assert(body =~= body.take(0));
        } else {
            assert(body.take(i - 1) =~= body);
        }
    }
    out
}

/// An open file of a process: the process and what the link under `/proc/<pid>/fd` names.
pub struct FdLink {
    pub pid: i32,
    pub target: String,
}

/// The process that a directory under `/proc` is about, when its name is a number.
pub fn proc_pid(name: &str) -> (r: Option<i32>)
    ensures
        match r {
            Some(v) => text::parse_i32_spec(name@) == Some(v as int),
            None => text::parse_i32_spec(name@) is None,
        },
{
    let chars = chars_of(name);
    parse_i32(chars.as_slice())
}

/// The inode of a link of the form `socket:[12345]`.
pub open spec fn link_inode(target: Seq<char>) -> Option<u64> {
    match split::strip_prefix(target, "socket:["@) {
        Some(t) => match split::strip_suffix(t, "]"@) {
            Some(d) => match text::parse_unsigned(d, 10, u64::MAX as nat) {
                Some(v) => Some(v as u64),
                None => None,
            },
            None => None,
        },
        None => None,
    }
}

/// Reads the inode out of a link to a socket; see [`link_inode`].
pub fn socket_inode(target: &str) -> (r: Option<u64>)
    ensures
        r == link_inode(target@),
{
    let chars = chars_of(target);
    if !starts_with(chars.as_slice(), "socket:[") {
        return None;
    }
    proof {
        reveal_strlit("socket:[");
        reveal_strlit("]");
        assert("socket:["@.len() == 8 && "]"@.len() == 1);
    }
    let tail = copy_range(chars.as_slice(), 8, chars.len());
    assert(tail@ =~= target@.skip(8));
    if !ends_with(tail.as_slice(), "]") {
        return None;
    }
    let digits = copy_range(tail.as_slice(), 0, tail.len() - 1);
    assert(digits@ =~= tail@.take(tail@.len() - 1));
    parse_number(digits.as_slice(), 10, u64::MAX)
}

/// Which process holds each socket. Of several processes that hold one, the last counts.
pub open spec fn holders(links: Seq<FdLink>) -> Map<u64, i32>
    decreases links.len(),
{
    if links.len() == 0 {
        Map::empty()
    } else {
        let before = holders(links.drop_last());
        match link_inode(links.last().target@) {
            Some(inode) => before.insert(inode, links.last().pid),
            None => before,
        }
    }
}

/// The listening sockets of several tables, one table after the other.
pub open spec fn all_sockets(tables: Seq<String>) -> Seq<(u64, u16)>
    decreases tables.len(),
{
    if tables.len() == 0 {
        Seq::empty()
    } else {
        all_sockets(tables.drop_last()) + proc_sockets(tables.last()@)
    }
}

/// The entry of a listening socket whose holder is known.
pub open spec fn socket_entry(held: Map<u64, i32>, socket: (u64, u16)) -> Option<PortEntryView> {
    if held.contains_key(socket.0) {
        Some(bare(socket.1, held[socket.0]))
    } else {
        None
    }
}

/// The entries of the listening sockets that some process holds.
pub open spec fn held_entries(tables: Seq<String>, links: Seq<FdLink>) -> Seq<PortEntryView> {
    split::filter_map(
        all_sockets(tables),
        |socket: (u64, u16)| socket_entry(holders(links), socket),
    )
}

/// The listening ports, in order of port and process, each pair once: the sockets of the
/// tables, each with the process among whose open files its inode stands.
pub fn listening_ports(tables: &Vec<String>, links: &Vec<FdLink>) -> (r: Vec<PortEntry>)
    ensures
        sorted_unique(entries(r@), held_entries(tables@, links@), false),
{
    let mut sockets: Vec<(u64, u16)> = Vec::new();
    assert(tables@.take(0) =~= Seq::<String>::empty());
    for i in 0..tables.len()
        invariant
            sockets@ == all_sockets(tables@.take(i as int)),
    {
        proof {
            assert(tables@.take(i + 1).drop_last() =~= tables@.take(i as int));
        }
        let mut more = parse_proc_net_tcp(tables[i].as_str());
        sockets.append(&mut more);
    }
    assert(tables@.take(tables@.len() as int) =~= tables@);
    let mut held: HashMap<u64, i32> = HashMap::new();
    assert(links@.take(0) =~= Seq::<FdLink>::empty());
    for i in 0..links.len()
        invariant
            held@ == holders(links@.take(i as int)),
    {
        proof {
            assert(links@.take(i + 1).drop_last() =~= links@.take(i as int));
        }
        if let Some(inode) = socket_inode(links[i].target.as_str()) {
            held.insert(inode, links[i].pid);
        }
    }
    assert(links@.take(links@.len() as int) =~= links@);
    let ghost f = |socket: (u64, u16)| socket_entry(holders(links@), socket);
    let mut raw: Vec<PortEntry> = Vec::new();
    assert(sockets@.take(0) =~= Seq::<(u64, u16)>::empty());
    assert(entries(raw@) =~= Seq::<PortEntryView>::empty());
    for i in 0..sockets.len()
        invariant
            held@ == holders(links@),
            f == (|socket: (u64, u16)| socket_entry(holders(links@), socket)),
            entries(raw@) == split::filter_map(sockets@.take(i as int), f),
    {
        proof {
            assert(sockets@.take(i + 1).drop_last() =~= sockets@.take(i as int));
        }
        let ghost earlier = entries(raw@);
        if let Some(pid) = held.get(&sockets[i].0) {
            let mut e = PortEntry::default();
            e.port = sockets[i].1;
            e.pid = *pid;
            let ghost ev = e@;
            raw.push(e);
            assert(entries(raw@) =~= earlier.push(ev));
        }
    }
    assert(sockets@.take(sockets@.len() as int) =~= sockets@);
    sort_unique(raw, false)
}

// ------------------------------------------------------------------ netstat

/// What a line of `netstat -ano` says of a listening socket:
/// `TCP  0.0.0.0:3000  0.0.0.0:0  LISTENING  1234`.
pub open spec fn netstat_line(line: Seq<char>) -> Option<PortEntryView> {
    let f = split::words(line);
    if f.len() < 5 || f[0] != "TCP"@ || f[3] != "LISTENING"@ {
        None
    } else {
        match (
            text::parse_unsigned(split::after_last(f[1], ':'), 10, 0xffff),
            text::parse_i32_spec(f[4]),
        ) {
            (Some(port), Some(pid)) => Some(bare(port as u16, pid as i32)),
            _ => None,
        }
    }
}

/// The listening sockets in `netstat -ano` output, in the order in which they stand there.
pub open spec fn netstat_entries(s: Seq<char>) -> Seq<PortEntryView> {
    split::filter_map(split::lines(s), |l: Seq<char>| netstat_line(l))
}

fn parse_netstat_line(line: &Vec<char>) -> (r: Option<PortEntry>)
    ensures
        match r {
            Some(e) => netstat_line(line@) == Some(e@),
            None => netstat_line(line@) is None,
        },
{
    let f = split_words(line.as_slice());
    let ghost fv = text::views(f@);
    if f.len() < 5 {
        return None;
    }
    assert(fv[0] == f@[0]@ && fv[1] == f@[1]@ && fv[3] == f@[3]@ && fv[4] == f@[4]@);
    if !chars_are(&f[0], "TCP") || !chars_are(&f[3], "LISTENING") {
        return None;
    }
    let local = last_piece(f[1].as_slice(), ':');
    let port = match parse_u16(local.as_slice()) {
        Some(p) => p,
        None => {
            return None;
        },
    };
    let pid = match parse_i32(f[4].as_slice()) {
        Some(p) => p,
        None => {
            return None;
        },
    };
    let mut e = PortEntry::default();
    e.port = port;
    e.pid = pid;
    Some(e)
}

/// Reads `netstat -ano` output into the listening ports, in order of port and process, each
/// pair once.
pub fn parse_netstat(s: &str) -> (r: Vec<PortEntry>)
    ensures
        sorted_unique(entries(r@), netstat_entries(s@), false),
{
    let chars = chars_of(s);
    let lines = split_lines(chars.as_slice());
    let ghost all = text::views(lines@);
    let ghost f = |l: Seq<char>| netstat_line(l);
    let mut raw: Vec<PortEntry> = Vec::new();
    assert(all.take(0) =~= Seq::<Seq<char>>::empty());
    assert(entries(raw@) =~= Seq::<PortEntryView>::empty());
    for i in 0..lines.len()
        invariant
            all == text::views(lines@),
            f == (|l: Seq<char>| netstat_line(l)),
            entries(raw@) == split::filter_map(all.take(i as int), f),
    {
        proof {
            assert(all.take(i + 1).drop_last() =~= all.take(i as int));
            assert(all.take(i + 1).last() == lines@[i as int]@);
        }
        let ghost earlier = entries(raw@);
        if let Some(e) = parse_netstat_line(&lines[i]) {
            let ghost ev = e@;
            raw.push(e);
            assert(entries(raw@) =~= earlier.push(ev));
        }
    }
    assert(all.take(lines@.len() as int) =~= all);
    sort_unique(raw, false)
}

} // verus!
