//! What is read out of what the system prints: sockets, processes, containers, units,
//! addresses and environments.
use vstd::prelude::*;
use crate::docker;
use crate::env;
use crate::health;
use crate::laws_text;
use crate::manager;
use crate::platform;
use crate::ports;
use crate::split;
use crate::system;
use crate::text;

verus! {

// ------------------------------------------------------------------ sockets

/// The sockets of all tables are those of each: a socket is among them exactly when some table
/// has it.
pub proof fn every_table_counts(tables: Seq<String>, x: (u64, u16))
    ensures
        ports::all_sockets(tables).contains(x) <==> exists|t: int|
            0 <= t < tables.len() && ports::proc_sockets((#[trigger] tables[t])@).contains(x),
    decreases tables.len(),
{
    let all = ports::all_sockets(tables);
    if tables.len() > 0 {
        let rest = tables.drop_last();
        let before = ports::all_sockets(rest);
        let last = ports::proc_sockets(tables.last()@);
        every_table_counts(rest, x);
        if all.contains(x) {
            let k = choose|k: int| 0 <= k < all.len() && all[k] == x;
            if k < before.len() {
                assert(before[k] == x);
                let t = choose|t: int|
                    0 <= t < rest.len() && ports::proc_sockets((#[trigger] rest[t])@).contains(x);
                assert(ports::proc_sockets(tables[t]@).contains(x));
            } else {
                assert(last[k - before.len()] == x);
                assert(ports::proc_sockets(tables[tables.len() - 1]@).contains(x));
            }
        }
        if exists|t: int|
            0 <= t < tables.len() && ports::proc_sockets((#[trigger] tables[t])@).contains(x) {
            let t = choose|t: int|
                0 <= t < tables.len() && ports::proc_sockets((#[trigger] tables[t])@).contains(x);
            if t < rest.len() {
                assert(rest[t] == tables[t]);
                assert(before.contains(x));
                let k = choose|k: int| 0 <= k < before.len() && before[k] == x;
                assert(all[k] == x);
            } else {
                let k = choose|k: int| 0 <= k < last.len() && last[k] == x;
                assert(all[before.len() + k] == x);
            }
        }
    }
}

/// A process holds a socket through a link to it, and the last such link says which process it
/// is; a socket without a link is held by none.
pub proof fn the_last_link_holds(links: Seq<ports::FdLink>, k: int, inode: u64)
    requires
        0 <= k < links.len(),
        ports::link_inode(links[k].target@) == Some(inode),
        forall|j: int|
            k < j < links.len() ==> ports::link_inode((#[trigger] links[j]).target@) != Some(inode),
    ensures
        ports::holders(links).contains_key(inode),
        ports::holders(links)[inode] == links[k].pid,
    decreases links.len(),
{
    if k < links.len() - 1 {
        let rest = links.drop_last();
        assert(rest[k] == links[k]);
        assert forall|j: int| k < j < rest.len() implies ports::link_inode(
            (#[trigger] rest[j]).target@,
        ) != Some(inode) by {
            assert(rest[j] == links[j]);
        }
        the_last_link_holds(rest, k, inode);
        assert(ports::link_inode(links[links.len() - 1].target@) != Some(inode));
    }
}

/// Every holder has a link to the socket; the result says which.
pub proof fn holders_have_links(links: Seq<ports::FdLink>, inode: u64) -> (k: int)
    requires
        ports::holders(links).contains_key(inode),
    ensures
        0 <= k < links.len(),
        ports::link_inode(links[k].target@) == Some(inode),
        links[k].pid == ports::holders(links)[inode],
    decreases links.len(),
{
    if ports::link_inode(links.last().target@) == Some(inode) {
        links.len() - 1
    } else {
        let k = holders_have_links(links.drop_last(), inode);
        assert(links.drop_last()[k] == links[k]);
        k
    }
}

/// A link names the socket between its brackets and nothing else does.
pub proof fn links_name_their_socket(inode: u64, target: Seq<char>)
    ensures
        ports::link_inode("socket:["@ + text::decimal(inode as nat) + "]"@) == Some(inode),
        !split::begins(target, "socket:["@) ==> ports::link_inode(target) is None,
{
    let d = text::decimal(inode as nat);
    laws_text::decimals_read_back(inode as nat, u64::MAX as nat);
    laws_text::ends_are_taken_off(d + "]"@, "socket:["@);
    laws_text::ends_are_taken_off(d, "]"@);
    assert("socket:["@ + d + "]"@ =~= "socket:["@ + (d + "]"@));
}

/// Every listening socket of every table that some process holds has an entry with its port and
/// that process.
pub proof fn held_sockets_are_listed(
    out: Seq<ports::PortEntryView>,
    tables: Seq<String>,
    links: Seq<ports::FdLink>,
    t: int,
    s: int,
)
    requires
        ports::sorted_unique(out, ports::held_entries(tables, links), false),
        0 <= t < tables.len(),
        0 <= s < ports::proc_sockets(tables[t]@).len(),
        ports::holders(links).contains_key(ports::proc_sockets(tables[t]@)[s].0),
    ensures
        exists|i: int|
            0 <= i < out.len() && (#[trigger] out[i]).port == ports::proc_sockets(tables[t]@)[s].1
                && out[i].pid == ports::holders(links)[ports::proc_sockets(tables[t]@)[s].0],
{
    let x = ports::proc_sockets(tables[t]@)[s];
    let all = ports::all_sockets(tables);
    let f = |socket: (u64, u16)| ports::socket_entry(ports::holders(links), socket);
    let raw = ports::held_entries(tables, links);
    assert(ports::proc_sockets(tables[t]@).contains(x));
    every_table_counts(tables, x);
    let k = choose|k: int| 0 <= k < all.len() && all[k] == x;
    let at = laws_text::what_is_given_is_listed(all, f);
    assert(f(all[k]) is Some);
    let e = f(all[k])->0;
    assert(raw.contains(e));
    let r = choose|r: int| 0 <= r < raw.len() && raw[r] == e;
    assert(ports::lists(out, raw[r]));
    let i = ports::lemma_lists_witness(out, raw[r]);
    assert(out[i].port == x.1);
}

/// Nothing else is listed: every entry is the port of a listening socket of some table and a
/// process that holds it, without a name, a user or a command. The result says which table.
pub proof fn only_held_sockets_are_listed(
    out: Seq<ports::PortEntryView>,
    tables: Seq<String>,
    links: Seq<ports::FdLink>,
    i: int,
) -> (t: int)
    requires
        ports::sorted_unique(out, ports::held_entries(tables, links), false),
        0 <= i < out.len(),
    ensures
        0 <= t < tables.len(),
        exists|inode: u64| #[trigger]
            ports::proc_sockets(tables[t]@).contains((inode, out[i].port)) && ports::holders(
                links,
            ).contains_key(inode) && ports::holders(links)[inode] == out[i].pid,
        out[i].name.len() == 0 && out[i].user.len() == 0 && out[i].cmd.len() == 0,
{
    let all = ports::all_sockets(tables);
    let f = |socket: (u64, u16)| ports::socket_entry(ports::holders(links), socket);
    let raw = ports::held_entries(tables, links);
    let k = ports::lemma_first_witness(raw, out[i]);
    let at = laws_text::what_is_given_is_listed(all, f);
    assert(f(all[at[k]]) == Some(raw[k]));
    let x = all[at[k]];
    assert(all.contains(x));
    every_table_counts(tables, x);
    let t = choose|t: int|
        0 <= t < tables.len() && ports::proc_sockets((#[trigger] tables[t])@).contains(x);
    assert(x == (x.0, out[i].port));
    t
}

/// A list of entries is in order: by process and then port where that is asked for, else by port
/// and then process. So no process has a port twice.
pub proof fn lists_are_sorted(
    out: Seq<ports::PortEntryView>,
    raw: Seq<ports::PortEntryView>,
    by_pid: bool,
    i: int,
    j: int,
)
    requires
        ports::sorted_unique(out, raw, by_pid),
        0 <= i < j < out.len(),
    ensures
        by_pid ==> out[i].pid < out[j].pid || (out[i].pid == out[j].pid && out[i].port
            < out[j].port),
        !by_pid ==> out[i].port < out[j].port || (out[i].port == out[j].port && out[i].pid
            < out[j].pid),
{
}

/// Each entry of a list is the first that was found of its process and port; the result says
/// where it was found.
pub proof fn lists_keep_what_was_found_first(
    out: Seq<ports::PortEntryView>,
    raw: Seq<ports::PortEntryView>,
    by_pid: bool,
    i: int,
) -> (k: int)
    requires
        ports::sorted_unique(out, raw, by_pid),
        0 <= i < out.len(),
    ensures
        0 <= k < raw.len(),
        raw[k] == out[i],
        forall|m: int|
            0 <= m < k ==> (#[trigger] raw[m]).pid != out[i].pid || raw[m].port != out[i].port,
{
    assert(ports::is_first(raw, out[i]));
    let k = ports::lemma_first_witness(raw, out[i]);
    assert forall|m: int| 0 <= m < k implies (#[trigger] raw[m]).pid != out[i].pid || raw[m].port
        != out[i].port by {
        assert(!ports::same_socket(raw[m], out[i]));
    }
    k
}

/// No process and port that was found is missing from the list; the result says where it is.
pub proof fn lists_are_complete(
    out: Seq<ports::PortEntryView>,
    raw: Seq<ports::PortEntryView>,
    by_pid: bool,
    k: int,
) -> (i: int)
    requires
        ports::sorted_unique(out, raw, by_pid),
        0 <= k < raw.len(),
    ensures
        0 <= i < out.len(),
        out[i].pid == raw[k].pid,
        out[i].port == raw[k].port,
{
    assert(ports::lists(out, raw[k]));
    ports::lemma_lists_witness(out, raw[k])
}

/// The sockets of a table are those of its lines but the first, which is the heading.
pub proof fn the_heading_is_no_socket(heading: Seq<char>, line: Seq<char>, rest: Seq<char>)
    requires
        !heading.contains('\n'),
        !line.contains('\n'),
        heading.len() == 0 || heading.last() != '\r',
        line.len() == 0 || line.last() != '\r',
        ports::proc_line(line) is Some,
    ensures
        ports::proc_sockets(heading + seq!['\n'] + (line + seq!['\n'] + rest)).contains(
            ports::proc_line(line)->0,
        ),
        ports::proc_sockets(heading).len() == 0,
{
    let s = heading + seq!['\n'] + (line + seq!['\n'] + rest);
    let f = |l: Seq<char>| ports::proc_line(l);
    laws_text::lines_end_at_line_feeds(heading, line + seq!['\n'] + rest);
    laws_text::lines_end_at_line_feeds(line, rest);
    laws_text::lines_end_at_line_feeds(heading, Seq::empty());
    let body = split::rest(split::lines(s));
    assert(body =~= seq![line] + split::lines(rest));
    let at = laws_text::what_is_given_is_listed(body, f);
    assert(body[0] == line);
    assert(f(body[0]) is Some);
    if heading.len() == 0 {
        assert(heading =~= Seq::<char>::empty());
    }
    assert(split::rest(split::lines(heading)).len() == 0);
}

/// A line of a socket table is read when its state is that of a listener: the port is the
/// hexadecimal number behind the last colon of the local address, the socket the tenth word.
pub proof fn listening_lines_are_read(
    line: Seq<char>,
    address: Seq<char>,
    hex: Seq<char>,
    port: u16,
    inode: u64,
)
    requires
        split::words(line).len() >= 10,
        split::words(line)[1] == address + seq![':'] + hex,
        !hex.contains(':'),
        text::parse_unsigned(hex, 16, 0xffff) == Some(port as nat),
        split::words(line)[9] == text::decimal(inode as nat),
    ensures
        split::words(line)[3] == "0A"@ ==> ports::proc_line(line) == Some((inode, port)),
        split::words(line)[3] != "0A"@ ==> ports::proc_line(line) is None,
{
    laws_text::the_last_piece_is_the_rest(address, hex, ':');
    laws_text::decimals_read_back(inode as nat, u64::MAX as nat);
}

/// A line of connections is read when it is a listener's: the port stands behind the last colon
/// of the local address, the process in the fifth word.
pub proof fn listening_connections_are_read(
    line: Seq<char>,
    address: Seq<char>,
    port: u16,
    pid: i32,
)
    requires
        split::words(line).len() >= 5,
        split::words(line)[1] == address + seq![':'] + text::decimal(port as nat),
        split::words(line)[4] == text::signed_decimal(pid as int),
    ensures
        split::words(line)[0] == "TCP"@ && split::words(line)[3] == "LISTENING"@ ==> ({
            let e = ports::netstat_line(line);
            e is Some && e->0.port == port && e->0.pid == pid && e->0.name.len() == 0
                && e->0.user.len() == 0 && e->0.cmd.len() == 0
        }),
        split::words(line)[0] != "TCP"@ || split::words(line)[3] != "LISTENING"@
            ==> ports::netstat_line(line) is None,
{
    lemma_no_colon(port as nat);
    laws_text::the_last_piece_is_the_rest(address, text::decimal(port as nat), ':');
    laws_text::decimals_read_back(port as nat, 0xffff);
    laws_text::signed_decimals_read_back(pid);
}

proof fn lemma_no_colon(n: nat)
    ensures
        !text::decimal(n).contains(':'),
        !text::decimal(n).contains('-'),
        !text::decimal(n).contains('/'),
        !text::decimal(n).contains('>'),
{
    laws_text::decimals_are_digits(n);
    let d = text::decimal(n);
    assert forall|i: int| 0 <= i < d.len() implies '0' <= #[trigger] d[i] <= '9' by {
        assert('0' <= text::decimal(n)[i] <= '9');
    }
}

/// A process line names the process for all address lines up to the next one; the name and the
/// user are those of the last lines that give them.
pub proof fn addresses_belong_to_the_last_process(lines: Seq<Seq<char>>, j: int, tag: char)
    requires
        0 <= j < lines.len(),
        lines[j].len() > 0,
        lines[j][0] == tag,
        forall|k: int|
            j < k < lines.len() ==> (#[trigger] lines[k]).len() == 0 || lines[k][0] != tag,
    ensures
        tag == 'p' && text::parse_i32_spec(lines[j].skip(1)) is Some ==> ports::lsof_lines(
            lines,
        ).pid == text::parse_i32_spec(lines[j].skip(1))->0,
        tag == 'c' ==> ports::lsof_lines(lines).name == lines[j].skip(1),
        tag == 'L' ==> ports::lsof_lines(lines).user == lines[j].skip(1),
    decreases lines.len(),
{
    if j < lines.len() - 1 {
        let rest = lines.drop_last();
        assert(rest[j] == lines[j]);
        assert forall|k: int| j < k < rest.len() implies (#[trigger] rest[k]).len() == 0
            || rest[k][0] != tag by {
            assert(rest[k] == lines[k]);
        }
        addresses_belong_to_the_last_process(rest, j, tag);
        let last = lines[lines.len() - 1];
        assert(last.len() == 0 || last[0] != tag);
    }
}

/// An address line that ends in a port adds an entry of that port for the process, the name and
/// the user that the lines before it give; any other line adds none, and none is taken back.
pub proof fn addresses_add_entries(lines: Seq<Seq<char>>, address: Seq<char>, port: u16, other: Seq<char>)
    requires
        other.len() == 0 || other[0] != 'n',
    ensures
        ({
            let st = ports::lsof_lines(lines);
            let line = seq!['n'] + address + seq![':'] + text::decimal(port as nat);
            let after = ports::lsof_lines(lines.push(line));
            &&& after.found.len() == st.found.len() + 1
            &&& after.found.drop_last() == st.found
            &&& after.found.last().port == port
            &&& after.found.last().pid == st.pid
            &&& after.found.last().name == st.name
            &&& after.found.last().user == st.user
            &&& after.found.last().cmd.len() == 0
            &&& after.pid == st.pid && after.name == st.name && after.user == st.user
            &&& ports::lsof_lines(lines.push(other)).found == st.found
        }),
{
    let line = seq!['n'] + address + seq![':'] + text::decimal(port as nat);
    let st = ports::lsof_lines(lines);
    assert(lines.push(line).drop_last() =~= lines);
    assert(lines.push(other).drop_last() =~= lines);
    assert(line.skip(1) =~= address + seq![':'] + text::decimal(port as nat));
    lemma_no_colon(port as nat);
    laws_text::the_last_piece_is_the_rest(address, text::decimal(port as nat), ':');
    laws_text::decimals_read_back(port as nat, 0xffff);
    assert(ports::lsof_lines(lines.push(line)).found.drop_last() =~= st.found);
}

/// A process line, a command line and a user line change what they give and nothing else.
pub proof fn other_lines_change_one_thing(lines: Seq<Seq<char>>, pid: i32, given: Seq<char>)
    ensures
        ({
            let st = ports::lsof_lines(lines);
            let p = ports::lsof_lines(lines.push(seq!['p'] + text::signed_decimal(pid as int)));
            let c = ports::lsof_lines(lines.push(seq!['c'] + given));
            let l = ports::lsof_lines(lines.push(seq!['L'] + given));
            &&& p.pid == pid && p.name == st.name && p.user == st.user
            &&& c.name == given && c.pid == st.pid && c.user == st.user
            &&& l.user == given && l.pid == st.pid && l.name == st.name
        }),
{
    let p = seq!['p'] + text::signed_decimal(pid as int);
    let c = seq!['c'] + given;
    let l = seq!['L'] + given;
    assert(lines.push(p).drop_last() =~= lines);
    assert(lines.push(c).drop_last() =~= lines);
    assert(lines.push(l).drop_last() =~= lines);
    assert(p.skip(1) =~= text::signed_decimal(pid as int));
    assert(c.skip(1) =~= given);
    assert(l.skip(1) =~= given);
    laws_text::signed_decimals_read_back(pid);
}

// ------------------------------------------------------------------ processes

/// The process of an id is the first of the table that has it, and there is none when none has
/// it.
pub proof fn processes_are_found_by_id(processes: Seq<system::ProcessView>, pid: i32, from: int)
    requires
        0 <= from,
    ensures
        match system::find_process(processes, pid, from) {
            Some(p) => p.pid == pid && exists|x: int|
                from <= x < processes.len() && #[trigger] processes[x] == p && forall|y: int|
                    from <= y < x ==> (#[trigger] processes[y]).pid != pid,
            None => forall|x: int|
                from <= x < processes.len() ==> (#[trigger] processes[x]).pid != pid,
        },
        system::process_of(processes, pid) == system::find_process(processes, pid, 0),
    decreases processes.len() - from,
{
    if from < processes.len() {
        if processes[from].pid == pid {
            assert(system::find_process(processes, pid, from) == Some(processes[from]));
        } else {
            processes_are_found_by_id(processes, pid, from + 1);
            if let Some(p) = system::find_process(processes, pid, from) {
                let x = choose|x: int|
                    from + 1 <= x < processes.len() && #[trigger] processes[x] == p && forall|
                        y: int,
                    |
                        from + 1 <= y < x ==> (#[trigger] processes[y]).pid != pid;
                assert(processes[x] == p);
            }
        }
    }
}

/// A process is alive exactly when the table has it.
pub proof fn the_living_are_in_the_table(processes: Seq<system::ProcessView>, pid: i32)
    ensures
        system::alive(processes, pid) <==> exists|x: int|
            0 <= x < processes.len() && (#[trigger] processes[x]).pid == pid,
{
    processes_are_found_by_id(processes, pid, 0);
}

/// What was looked up of a process is the first that names it; of a process that nothing was
/// looked up of, nothing is known.
pub proof fn lookups_are_found_by_id(lookups: Seq<system::LookupView>, pid: i32, from: int)
    requires
        0 <= from,
    ensures
        ({
            let l = system::find_lookup(lookups, pid, from);
            &&& l.pid == pid
            &&& (exists|x: int|
                from <= x < lookups.len() && #[trigger] lookups[x] == l && forall|y: int|
                    from <= y < x ==> (#[trigger] lookups[y]).pid != pid) || (l.ps is None
                && l.lsof is None && l.cgroup is None && l.launchctl is None && forall|x: int|
                from <= x < lookups.len() ==> (#[trigger] lookups[x]).pid != pid)
        }),
        system::lookup_of(lookups, pid) == system::find_lookup(lookups, pid, 0),
    decreases lookups.len() - from,
{
    if from < lookups.len() {
        let l = system::find_lookup(lookups, pid, from);
        if lookups[from].pid == pid {
            assert(lookups[from] == l);
        } else {
            lookups_are_found_by_id(lookups, pid, from + 1);
            if exists|x: int|
                from + 1 <= x < lookups.len() && #[trigger] lookups[x] == l && forall|y: int|
                    from + 1 <= y < x ==> (#[trigger] lookups[y]).pid != pid {
                let x = choose|x: int|
                    from + 1 <= x < lookups.len() && #[trigger] lookups[x] == l && forall|y: int|
                        from + 1 <= y < x ==> (#[trigger] lookups[y]).pid != pid;
                assert(lookups[x] == l);
            }
        }
    }
}

/// The command line of a process is the one in the table, and where that is empty the words that
/// `ps` printed.
pub proof fn commands_come_from_the_table_first(p: system::ProcessView, lookup: system::LookupView)
    ensures
        p.cmd.len() > 0 ==> system::command_of(p, lookup) == p.cmd,
        p.cmd.len() == 0 && lookup.ps is None ==> system::command_of(p, lookup).len() == 0,
        p.cmd.len() == 0 && lookup.ps is Some && split::trim(lookup.ps->0).len() > 0
            ==> system::command_of(p, lookup) == split::words(split::trim(lookup.ps->0)),
        p.cmd.len() == 0 && lookup.ps is Some && split::trim(lookup.ps->0).len() == 0
            ==> system::command_of(p, lookup).len() == 0,
{
}

/// Where a process runs is what the table says, and where that is not known the first line that
/// `lsof` printed with the tag of a name; it is known whenever either says it.
pub proof fn directories_come_from_the_table_first(
    p: Option<system::ProcessView>,
    lookup: system::LookupView,
    before: Seq<Seq<char>>,
    dir: Seq<char>,
    after: Seq<Seq<char>>,
)
    requires
        forall|i: int|
            0 <= i < before.len() ==> (#[trigger] before[i]).len() == 0 || before[i][0] != 'n',
    ensures
        p is Some && p->0.cwd is Some ==> system::cwd_of(p, lookup) == p->0.cwd,
        (p is None || p->0.cwd is None) && lookup.lsof is Some && split::lines(lookup.lsof->0)
            == before.push(seq!['n'] + dir) + after ==> system::cwd_of(p, lookup) == Some(dir),
        (p is None || p->0.cwd is None) && lookup.lsof is Some && split::lines(lookup.lsof->0)
            == before ==> system::cwd_of(p, lookup) is None,
        (p is None || p->0.cwd is None) && lookup.lsof is None ==> system::cwd_of(p, lookup) is None,
{
    lemma_first_name(before, seq!['n'] + dir, after, 0);
    lemma_no_name(before, 0);
    assert((seq!['n'] + dir).skip(1) =~= dir);
}

proof fn lemma_first_name(
    before: Seq<Seq<char>>,
    line: Seq<char>,
    after: Seq<Seq<char>>,
    from: int,
)
    requires
        line.len() > 0,
        line[0] == 'n',
        0 <= from <= before.len(),
        forall|i: int|
            0 <= i < before.len() ==> (#[trigger] before[i]).len() == 0 || before[i][0] != 'n',
    ensures
        platform::first_name_line(before.push(line) + after, from) == Some(line.skip(1)),
    decreases before.len() - from,
{
    let all = before.push(line) + after;
    if from < before.len() {
        assert(all[from] == before[from]);
        lemma_first_name(before, line, after, from + 1);
    } else {
        assert(all[from] == line);
    }
}

proof fn lemma_no_name(lines: Seq<Seq<char>>, from: int)
    requires
        0 <= from,
        forall|i: int|
            0 <= i < lines.len() ==> (#[trigger] lines[i]).len() == 0 || lines[i][0] != 'n',
    ensures
        platform::first_name_line(lines, from) is None,
    decreases lines.len() - from,
{
    if from < lines.len() {
        assert(lines[from].len() == 0 || lines[from][0] != 'n');
        lemma_no_name(lines, from + 1);
    }
}

// ------------------------------------------------------------------ units and agents

/// The unit of a line is its last piece between slashes that is the name of a service.
pub proof fn units_are_the_innermost_service(
    a: Seq<char>,
    unit: Seq<char>,
    inner: Seq<char>,
    plain: Seq<char>,
)
    requires
        !unit.contains('/'),
        split::ends(unit, ".service"@),
        !inner.contains('/'),
        !split::ends(inner, ".service"@),
        !plain.contains('/'),
        !split::ends(plain, ".service"@),
    ensures
        platform::line_unit(a + seq!['/'] + unit) == Some(unit),
        platform::line_unit(a + seq!['/'] + unit + seq!['/'] + inner) == Some(unit),
        platform::line_unit(unit) == Some(unit),
        platform::line_unit(plain) is None,
        platform::line_unit(a + seq!['/'] + plain) == platform::line_unit(a),
{
    let s = a + seq!['/'] + unit;
    split::lemma_one_more_piece(a, unit, '/');
    split::lemma_one_more_piece(s, inner, '/');
    split::lemma_one_piece(unit, '/');
    split::lemma_one_piece(plain, '/');
    split::lemma_one_more_piece(a, plain, '/');
    split::split_is_nonempty(a, '/');
    let p = split::split(a, '/');
    assert(split::split(s, '/') == p.push(unit));
    let q = p.push(unit).push(inner);
    assert(q[q.len() - 2] == unit);
    assert(platform::service_piece(q, q.len() as int) == platform::service_piece(q, q.len() - 1));
    assert(platform::service_piece(seq![plain], 1) == platform::service_piece(seq![plain], 0));
    lemma_pieces_before(p, plain, p.len() as int);
}

proof fn lemma_pieces_before(p: Seq<Seq<char>>, last: Seq<char>, from: int)
    requires
        0 <= from <= p.len(),
    ensures
        platform::service_piece(p.push(last), from) == platform::service_piece(p, from),
    decreases from,
{
    if from > 0 {
        assert(p.push(last)[from - 1] == p[from - 1]);
        lemma_pieces_before(p, last, from - 1);
    }
}

/// The unit of a process is that of the first line that has one, on Linux; elsewhere there is
/// none.
pub proof fn units_come_from_the_first_line(s: Seq<char>, os: platform::Os, k: int)
    ensures
        0 <= k < split::lines(s).len() && platform::line_unit(split::lines(s)[k]) is Some && (
        forall|j: int|
            0 <= j < k ==> platform::line_unit(#[trigger] split::lines(s)[j]) is None) ==> ({
            &&& platform::unit_of(platform::Os::Linux, Some(s)) == platform::line_unit(
                split::lines(s)[k],
            )
        }),
        (forall|j: int|
            0 <= j < split::lines(s).len() ==> platform::line_unit(
                #[trigger] split::lines(s)[j],
            ) is None) ==> platform::unit_of(os, Some(s)) is None,
        platform::unit_of(platform::Os::MacOs, Some(s)) is None,
        platform::unit_of(platform::Os::Windows, Some(s)) is None,
        platform::unit_of(os, None) is None,
{
    let lines = split::lines(s);
    if 0 <= k < lines.len() && platform::line_unit(lines[k]) is Some && (forall|j: int|
        0 <= j < k ==> platform::line_unit(#[trigger] lines[j]) is None) {
        lemma_first_unit(lines, 0, k);
    }
    if forall|j: int| 0 <= j < lines.len() ==> platform::line_unit(#[trigger] lines[j]) is None {
        lemma_no_unit(lines, 0);
    }
}

proof fn lemma_first_unit(lines: Seq<Seq<char>>, from: int, k: int)
    requires
        0 <= from <= k < lines.len(),
        platform::line_unit(lines[k]) is Some,
        forall|j: int| 0 <= j < k ==> platform::line_unit(#[trigger] lines[j]) is None,
    ensures
        platform::lines_unit(lines, from) == platform::line_unit(lines[k]),
    decreases k - from,
{
    if from < k {
        assert(platform::line_unit(lines[from]) is None);
        lemma_first_unit(lines, from + 1, k);
    }
}

proof fn lemma_no_unit(lines: Seq<Seq<char>>, from: int)
    requires
        0 <= from,
        forall|j: int| 0 <= j < lines.len() ==> platform::line_unit(#[trigger] lines[j]) is None,
    ensures
        platform::lines_unit(lines, from) is None,
    decreases lines.len() - from,
{
    if from < lines.len() {
        assert(platform::line_unit(lines[from]) is None);
        lemma_no_unit(lines, from + 1);
    }
}

/// The agent of a process is the third word of the first line whose first word is its id, on
/// macOS; elsewhere there is none.
pub proof fn agents_are_listed_by_id(s: Seq<char>, os: platform::Os, pid: i32, k: int)
    ensures
        0 <= k < split::lines(s).len() && split::words(split::lines(s)[k]).len() >= 3
            && split::words(split::lines(s)[k])[0] == text::signed_decimal(pid as int) && (forall|
            j: int,
        |
            0 <= j < k ==> split::words(#[trigger] split::lines(s)[j]).len() == 0 || split::words(
                split::lines(s)[j],
            )[0] != text::signed_decimal(pid as int)) ==> platform::label_of(
            platform::Os::MacOs,
            Some(s),
            pid,
        ) == Some(split::words(split::lines(s)[k])[2]),
        (forall|j: int|
            0 <= j < split::lines(s).len() ==> split::words(#[trigger] split::lines(s)[j]).len()
                == 0 || split::words(split::lines(s)[j])[0] != text::signed_decimal(pid as int))
            ==> platform::label_of(os, Some(s), pid) is None,
        platform::label_of(platform::Os::Linux, Some(s), pid) is None,
        platform::label_of(platform::Os::Windows, Some(s), pid) is None,
        platform::label_of(os, None, pid) is None,
{
    let lines = split::lines(s);
    let id = text::signed_decimal(pid as int);
    if 0 <= k < lines.len() && split::words(lines[k]).len() >= 3 && split::words(lines[k])[0] == id
        && (forall|j: int|
        0 <= j < k ==> split::words(#[trigger] lines[j]).len() == 0 || split::words(lines[j])[0]
            != id) {
        lemma_first_label(lines, pid, 0, k);
    }
    if forall|j: int|
        0 <= j < lines.len() ==> split::words(#[trigger] lines[j]).len() == 0 || split::words(
            lines[j],
        )[0] != id {
        lemma_no_label(lines, pid, 0);
    }
}

proof fn lemma_first_label(lines: Seq<Seq<char>>, pid: i32, from: int, k: int)
    requires
        0 <= from <= k < lines.len(),
        split::words(lines[k]).len() >= 3,
        split::words(lines[k])[0] == text::signed_decimal(pid as int),
        forall|j: int|
            0 <= j < k ==> split::words(#[trigger] lines[j]).len() == 0 || split::words(
                lines[j],
            )[0] != text::signed_decimal(pid as int),
    ensures
        platform::launchctl_lines(lines, pid, from) == Some(split::words(lines[k])[2]),
    decreases k - from,
{
    if from < k {
        assert(platform::launchctl_line(lines[from], pid) is None);
        lemma_first_label(lines, pid, from + 1, k);
    }
}

proof fn lemma_no_label(lines: Seq<Seq<char>>, pid: i32, from: int)
    requires
        0 <= from,
        forall|j: int|
            0 <= j < lines.len() ==> split::words(#[trigger] lines[j]).len() == 0 || split::words(
                lines[j],
            )[0] != text::signed_decimal(pid as int),
    ensures
        platform::launchctl_lines(lines, pid, from) is None,
    decreases lines.len() - from,
{
    if from < lines.len() {
        assert(platform::launchctl_line(lines[from], pid) is None);
        lemma_no_label(lines, pid, from + 1);
    }
}

/// Whatever opens a target, the target is its last word.
pub proof fn openers_get_the_target(os: platform::Os, target: Seq<char>)
    ensures
        platform::opener(os, target).last() == target,
        platform::opener(platform::Os::MacOs, target) == seq!["open"@, target],
        platform::opener(platform::Os::Linux, target) == seq!["xdg-open"@, target],
{
}

// ------------------------------------------------------------------ containers

/// A line of five fields with tabs between them is a container with those fields in their order,
/// and what more fields there are is not looked at; a line of fewer is none.
pub proof fn container_lines_are_read(f: Seq<Seq<char>>)
    requires
        f.len() > 0,
        forall|i: int| 0 <= i < f.len() ==> !(#[trigger] f[i]).contains('\t'),
    ensures
        f.len() >= 5 ==> ({
            let c = docker::ps_line(split::join(f, seq!['\t']));
            &&& c is Some
            &&& c->0.id == f[0]
            &&& c->0.name == f[1]
            &&& c->0.image == f[2]
            &&& c->0.ports == f[3]
            &&& c->0.status == f[4]
        }),
        f.len() < 5 ==> docker::ps_line(split::join(f, seq!['\t'])) is None,
{
    split::join_then_split(f, '\t');
}

/// Every line that is a container is listed, in the order of the lines. The result says which
/// line each comes from.
pub proof fn containers_are_listed(s: Seq<char>) -> (at: Seq<int>)
    ensures
        at.len() == docker::ps_containers(s).len(),
        forall|k: int|
            0 <= k < at.len() ==> 0 <= #[trigger] at[k] < split::lines(s).len() && docker::ps_line(
                split::lines(s)[at[k]],
            ) == Some(docker::ps_containers(s)[k]),
        forall|k: int, l: int| 0 <= k < l < at.len() ==> #[trigger] at[k] < #[trigger] at[l],
        forall|i: int|
            0 <= i < split::lines(s).len() && docker::ps_line(#[trigger] split::lines(s)[i]) is Some
                ==> at.contains(i),
{
    let f = |l: Seq<char>| docker::ps_line(l);
    let at = laws_text::what_is_given_is_listed(split::lines(s), f);
    assert forall|i: int|
        0 <= i < split::lines(s).len() && docker::ps_line(
            #[trigger] split::lines(s)[i],
        ) is Some implies at.contains(i) by {
        assert(f(split::lines(s)[i]) is Some);
    }
    at
}

/// The port of a container on this machine is the number before the first arrow, behind the
/// colon; of a range it is the first.
pub proof fn published_ports_are_read(a: Seq<char>, port: u16, last: u16, rest: Seq<char>)
    requires
        !a.contains('>'),
    ensures
        docker::host_port_of(a + seq![':'] + text::decimal(port as nat) + "->"@ + rest) == Some(port),
        docker::host_port_of(
            a + seq![':'] + text::decimal(port as nat) + seq!['-'] + text::decimal(last as nat)
                + "->"@ + rest,
        ) == Some(port),
{
    let d = text::decimal(port as nat);
    let e = text::decimal(last as nat);
    lemma_no_colon(port as nat);
    lemma_no_colon(last as nat);
    laws_text::decimals_read_back(port as nat, 0xffff);
    laws_text::decimals_read_back(last as nat, 0xffff);
    reveal_strlit("-");
    // One port.
    lemma_before_arrow(a + seq![':'] + d, rest);
    laws_text::the_last_piece_is_the_rest(a, d, ':');
    laws_text::texts_are_cut_once(d, "-"@);
    if let Some((x, y)) = split::split_once(d, "-"@) {
        assert((x + "-"@ + y)[x.len() as int] == '-');
        assert(d[x.len() as int] == '-');
        assert(d.contains('-'));
    }
    // A range.
    let range = d + seq!['-'] + e;
    assert(!range.contains(':')) by {
        if range.contains(':') {
            let i = choose|i: int| 0 <= i < range.len() && range[i] == ':';
            if i < d.len() {
                assert(d[i] == ':');
            } else if i > d.len() {
                assert(e[i - d.len() - 1] == ':');
            }
        }
    }
    assert(a + seq![':'] + d + seq!['-'] + e =~= a + seq![':'] + range);
    lemma_before_arrow(a + seq![':'] + range, rest);
    laws_text::the_last_piece_is_the_rest(a, range, ':');
    lemma_first_dash(d, e);
}

proof fn lemma_before_arrow(t: Seq<char>, rest: Seq<char>)
    requires
        t.len() > 0,
        forall|i: int| 0 <= i < t.len() ==> #[trigger] t[i] != '>',
    ensures
        split::find(t + "->"@ + rest, "->"@, 0) is Some,
        split::before(t + "->"@ + rest, "->"@) == t,
{
    reveal_strlit("->");
    let s = t + "->"@ + rest;
    laws_text::the_first_place_is_found(s, "->"@, 0);
    assert(s.subrange(t.len() as int, t.len() + 2int) =~= "->"@);
    split::lemma_find(s, "->"@, 0);
    assert(split::stands_at(s, t.len() as int, "->"@));
    let i = split::find(s, "->"@, 0)->0;
    if i < t.len() {
        assert(s.subrange(i, i + 2)[1] == s[i + 1]);
        assert(s.subrange(i, i + 2)[1] == '>');
        if i + 1 < t.len() {
            assert(t[i + 1] == '>');
        }
        assert(false);
    }
    if i > t.len() {
        assert(s.subrange(t.len() as int, t.len() + 2int) != "->"@);
    }
    assert(s.take(i) =~= t);
}

proof fn lemma_first_dash(d: Seq<char>, e: Seq<char>)
    requires
        !d.contains('-'),
    ensures
        split::split_once(d + seq!['-'] + e, "-"@) == Some((d, e)),
{
    reveal_strlit("-");
    let s = d + seq!['-'] + e;
    laws_text::texts_hold_their_middle(d, "-"@, e, s);
    assert(d + "-"@ + e =~= s);
    laws_text::texts_are_cut_once(s, "-"@);
    let (x, y) = split::split_once(s, "-"@)->0;
    if x.len() < d.len() {
        assert((x + "-"@ + y)[x.len() as int] == '-');
        assert(d[x.len() as int] == '-');
    }
    if x.len() > d.len() {
        assert(s.subrange(d.len() as int, d.len() + 1int) =~= "-"@);
    }
    assert(x =~= d) by {
        assert forall|i: int| 0 <= i < d.len() implies x[i] == d[i] by {
            assert((x + "-"@ + y)[i] == s[i]);
        }
    }
    assert(y =~= e) by {
        assert forall|i: int| 0 <= i < e.len() implies y[i] == e[i] by {
            assert((x + "-"@ + y)[d.len() + 1 + i] == s[d.len() + 1 + i]);
        }
    }
}

/// A port that is not published is none on this machine.
pub proof fn unpublished_ports_are_not_read(ports: Seq<char>)
    requires
        !split::contains(ports, "->"@),
        ports.len() > 0,
        !('0' <= ports.last() <= '9'),
    ensures
        docker::host_port_of(ports) is None,
{
    split::lemma_find(ports, "->"@, 0);
    let host = split::after_last(ports, ':');
    split::split_then_join(ports, ':');
    split::split_is_nonempty(ports, ':');
    let parts = split::split(ports, ':');
    if host.len() > 0 {
        if parts.len() > 1 {
            assert(split::join(parts, seq![':']) == split::join(parts.drop_last(), seq![':'])
                + seq![':'] + parts.last());
        }
        assert(host.last() == ports.last());
        assert(text::digit_value(host.last(), 10) is None);
        if host[0] == '+' && host.len() > 1 {
            assert(host.skip(1).last() == host.last());
        }
    }
}

// ------------------------------------------------------------------ addresses

/// A plain URL names its host, its port and its path: the port is eighty where none is given,
/// the path a slash.
pub proof fn urls_name_their_target(host: Seq<char>, port: u16, path: Seq<char>)
    requires
        host.len() > 0,
        !host.contains('/'),
        !host.contains(':'),
    ensures
        ({
            let t = health::url_target(
                "http://"@ + host + seq![':'] + text::decimal(port as nat) + seq!['/'] + path,
            );
            t is Some && t->0.host == host && t->0.port == port && t->0.path == seq!['/'] + path
        }),
        ({
            let t = health::url_target("http://"@ + host + seq![':'] + text::decimal(port as nat));
            t is Some && t->0.host == host && t->0.port == port && t->0.path == seq!['/']
        }),
        ({
            let t = health::url_target("http://"@ + host + seq!['/'] + path);
            t is Some && t->0.host == host && t->0.port == 80 && t->0.path == seq!['/'] + path
        }),
        ({
            let t = health::url_target("http://"@ + host);
            t is Some && t->0.host == host && t->0.port == 80 && t->0.path == seq!['/']
        }),
{
    let d = text::decimal(port as nat);
    let full = host + seq![':'] + d;
    lemma_authority(host, port);
    lemma_no_slash(host, d);
    split::lemma_one_piece(host, ':');
    assert("http://"@ + host + seq![':'] + d + seq!['/'] + path =~= "http://"@ + (full + seq!['/']
        + path));
    assert("http://"@ + host + seq![':'] + d =~= "http://"@ + full);
    assert("http://"@ + host + seq!['/'] + path =~= "http://"@ + (host + seq!['/'] + path));
    lemma_target(full, path);
    lemma_target(host, path);
}

/// What a host and a port name.
proof fn lemma_authority(host: Seq<char>, port: u16)
    ensures
        health::host_and_port(host + seq![':'] + text::decimal(port as nat)) == (if host.len() > 0 {
            Some((host, port))
        } else {
            None
        }),
        !text::decimal(port as nat).contains('/'),
{
    let d = text::decimal(port as nat);
    let full = host + seq![':'] + d;
    lemma_no_colon(port as nat);
    laws_text::decimals_read_back(port as nat, 0xffff);
    split::lemma_one_more_piece(host, d, ':');
    split::split_is_nonempty(host, ':');
    assert(full.take(full.len() - d.len() - 1) =~= host);
}

proof fn lemma_no_slash(a: Seq<char>, b: Seq<char>)
    requires
        !a.contains('/'),
        !b.contains('/'),
    ensures
        !(a + seq![':'] + b).contains('/'),
{
    let full = a + seq![':'] + b;
    if full.contains('/') {
        let i = choose|i: int| 0 <= i < full.len() && full[i] == '/';
        if i < a.len() {
            assert(a[i] == '/');
        } else if i > a.len() {
            assert(b[i - a.len() - 1] == '/');
        }
    }
}

/// What a URL names is its host and port, and the path behind them.
proof fn lemma_target(authority: Seq<char>, path: Seq<char>)
    requires
        !authority.contains('/'),
    ensures
        health::url_target("http://"@ + (authority + seq!['/'] + path)) == (
        match health::host_and_port(authority) {
            Some((host, port)) => Some(
                health::HttpTargetView { host, port, path: seq!['/'] + path },
            ),
            None => None,
        }),
        health::url_target("http://"@ + authority) == (match health::host_and_port(authority) {
            Some((host, port)) => Some(health::HttpTargetView { host, port, path: seq!['/'] }),
            None => None,
        }),
{
    reveal_strlit("/");
    assert("/"@ =~= seq!['/']);
    laws_text::ends_are_taken_off(authority + seq!['/'] + path, "http://"@);
    laws_text::ends_are_taken_off(authority, "http://"@);
    lemma_first_slash(authority, path);
}

proof fn lemma_first_slash(a: Seq<char>, path: Seq<char>)
    requires
        !a.contains('/'),
    ensures
        split::find(a + seq!['/'] + path, "/"@, 0) == Some(a.len() as int),
        (a + seq!['/'] + path).take(a.len() as int) == a,
        (a + seq!['/'] + path).skip(a.len() as int) == seq!['/'] + path,
        split::find(a, "/"@, 0) is None,
{
    reveal_strlit("/");
    let s = a + seq!['/'] + path;
    laws_text::the_first_place_is_found(s, "/"@, 0);
    laws_text::the_first_place_is_found(a, "/"@, 0);
    assert(s.subrange(a.len() as int, a.len() + 1int) =~= "/"@);
    split::lemma_find(s, "/"@, 0);
    assert(split::stands_at(s, a.len() as int, "/"@));
    let i = split::find(s, "/"@, 0)->0;
    if i < a.len() {
        assert(s.subrange(i, i + 1)[0] == '/');
        assert(a[i] == '/');
    }
    if i > a.len() {
        assert(s.subrange(a.len() as int, a.len() + 1int) != "/"@);
    }
    if let Some(j) = split::find(a, "/"@, 0) {
        assert(a.subrange(j, j + 1)[0] == '/');
        assert(a[j] == '/');
    }
    assert(s.take(a.len() as int) =~= a);
    assert(s.skip(a.len() as int) =~= seq!['/'] + path);
}

/// Any other URL is no target.
pub proof fn other_urls_are_not_asked(url: Seq<char>)
    requires
        !split::begins(url, "http://"@),
    ensures
        health::url_target(url) is None,
{
}

/// The code of a response is the number behind the protocol in its first line.
pub proof fn responses_give_their_code(
    version: Seq<char>,
    code: u16,
    reason: Seq<char>,
    rest: Seq<char>,
)
    requires
        forall|i: int| 0 <= i < version.len() ==> !split::is_space(#[trigger] version[i]),
        !reason.contains('\n'),
    ensures
        health::response_code(
            "HTTP/"@ + version + seq![' '] + text::decimal(code as nat) + seq![' '] + reason + seq![
                '\r',
                '\n',
            ] + rest,
        ) == Some(code),
{
    let d = text::decimal(code as nat);
    let proto = "HTTP/"@ + version;
    let line = proto + seq![' '] + d + seq![' '] + reason;
    reveal_strlit("HTTP/");
    laws_text::decimals_are_digits(code as nat);
    laws_text::decimals_read_back(code as nat, 0xffff);
    assert(!line.contains('\n')) by {
        if line.contains('\n') {
            let i = choose|i: int| 0 <= i < line.len() && line[i] == '\n';
            let n = proto.len();
            if i < n {
                assert(proto[i] == '\n');
                if i >= 5 {
                    assert(split::is_space(version[i - 5]));
                }
            } else if n < i < n + 1 + d.len() {
                assert('0' <= text::decimal(code as nat)[i - n - 1]);
                assert(d[i - n - 1] == '\n');
            } else if i > n + 1 + d.len() {
                assert(reason[i - n - 2 - d.len()] == '\n');
            }
        }
    }
    laws_text::lines_end_at_line_feeds(line, rest);
    assert("HTTP/"@ + version + seq![' '] + d + seq![' '] + reason + seq!['\r', '\n'] + rest
        =~= line + seq!['\r', '\n'] + rest);
    assert forall|i: int| 0 <= i < proto.len() implies !split::is_space(#[trigger] proto[i]) by {
        if i >= 5 {
            assert(!split::is_space(version[i - 5]));
        }
    }
    assert forall|i: int| 0 <= i < d.len() implies !split::is_space(#[trigger] d[i]) by {
        assert('0' <= text::decimal(code as nat)[i] <= '9');
    }
    laws_text::solid_texts_are_one_word(proto);
    laws_text::solid_texts_are_one_word(d);
    laws_text::white_space_parts_words(d, ' ', reason);
    laws_text::white_space_parts_words(proto, ' ', d.push(' ') + reason);
    assert(line =~= proto.push(' ') + (d.push(' ') + reason));
    laws_text::ends_are_taken_off(version, "HTTP/"@);
}

// ------------------------------------------------------------------ environments

/// A variable has the value that is given last, and none when it is not given.
pub proof fn the_last_value_counts(given: Seq<(Seq<char>, Seq<char>)>, k: int, name: Seq<char>)
    ensures
        0 <= k < given.len() && given[k].0 == name && (forall|j: int|
            k < j < given.len() ==> (#[trigger] given[j]).0 != name) ==> env::value_of(given, name)
            == Some(given[k].1),
        (forall|j: int| 0 <= j < given.len() ==> (#[trigger] given[j]).0 != name)
            ==> env::value_of(given, name) is None,
    decreases given.len(),
{
    if given.len() > 0 {
        let rest = given.drop_last();
        the_last_value_counts(rest, k, name);
        if 0 <= k < rest.len() {
            assert(rest[k] == given[k]);
        }
        if 0 <= k && forall|j: int| k < j < given.len() ==> (#[trigger] given[j]).0 != name {
            assert forall|j: int| k < j < rest.len() implies (#[trigger] rest[j]).0 != name by {
                assert(rest[j] == given[j]);
            }
            if k < given.len() - 1 {
                assert(given[given.len() - 1].0 != name);
            }
        }
        if forall|j: int| 0 <= j < given.len() ==> (#[trigger] given[j]).0 != name {
            assert forall|j: int| 0 <= j < rest.len() implies (#[trigger] rest[j]).0 != name by {
                assert(rest[j] == given[j]);
            }
            assert(given[given.len() - 1].0 != name);
        }
    }
}

/// A variable that the process has and the shell has not, or has otherwise, is in the difference
/// with both values.
pub proof fn changed_variables_are_told(
    theirs: Seq<(Seq<char>, Seq<char>)>,
    ours: Seq<(Seq<char>, Seq<char>)>,
    k: int,
)
    requires
        0 <= k < theirs.len(),
    ensures
        env::value_of(ours, theirs[k].0) is None ==> env::diff_lines(theirs, ours).contains(
            "+ "@ + theirs[k].0 + "="@ + theirs[k].1,
        ),
        env::value_of(ours, theirs[k].0) is Some && env::value_of(ours, theirs[k].0)->0
            != theirs[k].1 ==> env::diff_lines(theirs, ours).contains(
            "~ "@ + theirs[k].0 + ": proc="@ + theirs[k].1 + " shell="@ + env::value_of(
                ours,
                theirs[k].0,
            )->0,
        ),
{
    let f = |kv: (Seq<char>, Seq<char>)| env::process_line(ours, kv);
    let at = laws_text::what_is_given_is_listed(theirs, f);
    let first = split::filter_map(theirs, f);
    if f(theirs[k]) is Some {
        let x = f(theirs[k])->0;
        assert(first.contains(x));
        let i = choose|i: int| 0 <= i < first.len() && first[i] == x;
        assert(env::diff_lines(theirs, ours)[i] == x);
    }
}

/// A variable of the shell that the process has not is in the difference, once for each name.
pub proof fn missing_variables_are_told(
    theirs: Seq<(Seq<char>, Seq<char>)>,
    ours: Seq<(Seq<char>, Seq<char>)>,
    k: int,
)
    requires
        0 <= k < ours.len(),
        forall|j: int| 0 <= j < theirs.len() ==> (#[trigger] theirs[j]).0 != ours[k].0,
    ensures
        env::diff_lines(theirs, ours).contains("- "@ + ours[k].0 + " (not inherited)"@),
{
    lemma_missing(theirs, ours, k);
    let x = "- "@ + ours[k].0 + " (not inherited)"@;
    let f = |kv: (Seq<char>, Seq<char>)| env::process_line(ours, kv);
    let first = split::filter_map(theirs, f);
    let missing = env::missing_lines(theirs, ours);
    let i = choose|i: int| 0 <= i < missing.len() && missing[i] == x;
    assert(env::diff_lines(theirs, ours)[first.len() + i] == x);
}

proof fn lemma_missing(
    theirs: Seq<(Seq<char>, Seq<char>)>,
    ours: Seq<(Seq<char>, Seq<char>)>,
    k: int,
)
    requires
        0 <= k < ours.len(),
        forall|j: int| 0 <= j < theirs.len() ==> (#[trigger] theirs[j]).0 != ours[k].0,
    ensures
        env::missing_lines(theirs, ours).contains("- "@ + ours[k].0 + " (not inherited)"@),
    decreases ours.len(),
{
    let x = "- "@ + ours[k].0 + " (not inherited)"@;
    let rest = ours.drop_last();
    let before = env::missing_lines(theirs, rest);
    let all = env::missing_lines(theirs, ours);
    if k < rest.len() {
        assert(rest[k] == ours[k]);
        lemma_missing(theirs, rest, k);
        let i = choose|i: int| 0 <= i < before.len() && before[i] == x;
        assert(all[i] == x);
    } else if env::is_set(rest, ours[k].0) {
        let j = choose|j: int| 0 <= j < rest.len() && (#[trigger] rest[j]).0 == ours[k].0;
        lemma_missing(theirs, rest, j);
    } else {
        assert(all[before.len() as int] == x);
    }
}

/// Every line of the difference tells of a variable that is changed, new or missing.
pub proof fn differences_are_differences(
    theirs: Seq<(Seq<char>, Seq<char>)>,
    ours: Seq<(Seq<char>, Seq<char>)>,
    i: int,
)
    requires
        0 <= i < env::diff_lines(theirs, ours).len(),
    ensures
        ({
            let line = env::diff_lines(theirs, ours)[i];
            ||| exists|k: int|
                0 <= k < theirs.len() && env::value_of(ours, (#[trigger] theirs[k]).0) is None
                    && line == "+ "@ + theirs[k].0 + "="@ + theirs[k].1
            ||| exists|k: int|
                0 <= k < theirs.len() && env::value_of(ours, (#[trigger] theirs[k]).0) is Some
                    && env::value_of(ours, theirs[k].0)->0 != theirs[k].1 && line == "~ "@
                    + theirs[k].0 + ": proc="@ + theirs[k].1 + " shell="@ + env::value_of(
                    ours,
                    theirs[k].0,
                )->0
            ||| exists|k: int|
                0 <= k < ours.len() && line == "- "@ + (#[trigger] ours[k]).0
                    + " (not inherited)"@ && forall|j: int|
                    0 <= j < theirs.len() ==> (#[trigger] theirs[j]).0 != ours[k].0
        }),
{
    let f = |kv: (Seq<char>, Seq<char>)| env::process_line(ours, kv);
    let at = laws_text::what_is_given_is_listed(theirs, f);
    let first = split::filter_map(theirs, f);
    if i < first.len() {
        assert(f(theirs[at[i]]) == Some(first[i]));
    } else {
        let k = lemma_missing_is_missing(theirs, ours, i - first.len());
        assert(env::diff_lines(theirs, ours)[i] == "- "@ + ours[k].0 + " (not inherited)"@);
    }
}

proof fn lemma_missing_is_missing(
    theirs: Seq<(Seq<char>, Seq<char>)>,
    ours: Seq<(Seq<char>, Seq<char>)>,
    i: int,
) -> (k: int)
    requires
        0 <= i < env::missing_lines(theirs, ours).len(),
    ensures
        0 <= k < ours.len(),
        env::missing_lines(theirs, ours)[i] == "- "@ + ours[k].0 + " (not inherited)"@,
        forall|j: int| 0 <= j < theirs.len() ==> (#[trigger] theirs[j]).0 != ours[k].0,
    decreases ours.len(),
{
    let rest = ours.drop_last();
    let before = env::missing_lines(theirs, rest);
    if i < before.len() {
        let k = lemma_missing_is_missing(theirs, rest, i);
        assert(rest[k] == ours[k]);
        k
    } else {
        assert(!env::is_set(theirs, ours.last().0));
        ours.len() - 1
    }
}

/// A variable is its name up to the first equals sign and the value behind it.
pub proof fn variables_are_read(environ: Seq<Seq<char>>, k: int, name: Seq<char>, value: Seq<char>)
    requires
        0 <= k < environ.len(),
        environ[k] == name + seq!['='] + value,
        !name.contains('='),
    ensures
        env::environ_pairs(environ).contains((name, value)),
{
    reveal_strlit("=");
    let s = environ[k];
    laws_text::texts_hold_their_middle(name, "="@, value, s);
    assert(name + "="@ + value =~= s);
    laws_text::texts_are_cut_once(s, "="@);
    let (x, y) = split::split_once(s, "="@)->0;
    if x.len() < name.len() {
        assert((x + "="@ + y)[x.len() as int] == '=');
        assert(name[x.len() as int] == '=');
    }
    if x.len() > name.len() {
        assert(s.subrange(name.len() as int, name.len() + 1int) =~= "="@);
    }
    assert(x =~= name) by {
        assert forall|i: int| 0 <= i < name.len() implies x[i] == name[i] by {
            assert((x + "="@ + y)[i] == s[i]);
        }
    }
    assert(y =~= value) by {
        assert forall|i: int| 0 <= i < value.len() implies y[i] == value[i] by {
            assert((x + "="@ + y)[name.len() + 1 + i] == s[name.len() + 1 + i]);
        }
    }
    let f = |kv: Seq<char>| split::split_once(kv, "="@);
    let at = laws_text::what_is_given_is_listed(environ, f);
    assert(f(environ[k]) is Some);
}

// ------------------------------------------------------------------ sessions

/// A saved session is read line by line: a line with more than white space is a name without the
/// white space around it.
pub proof fn session_files_are_read(saved: Seq<char>) -> (at: Seq<int>)
    ensures
        at.len() == manager::names_to_resume(Some(saved)).len(),
        forall|k: int|
            0 <= k < at.len() ==> 0 <= #[trigger] at[k] < split::lines(saved).len() && split::trim(
                split::lines(saved)[at[k]],
            ) == manager::names_to_resume(Some(saved))[k] && manager::names_to_resume(
                Some(saved),
            )[k].len() > 0,
        forall|k: int, l: int| 0 <= k < l < at.len() ==> #[trigger] at[k] < #[trigger] at[l],
        forall|i: int|
            0 <= i < split::lines(saved).len() && split::trim(#[trigger] split::lines(saved)[i]).len()
                > 0 ==> at.contains(i),
        manager::names_to_resume(None).len() == 0,
{
    let f = |l: Seq<char>|
        if split::trim(l).len() == 0 {
            None
        } else {
            Some(split::trim(l))
        };
    let at = laws_text::what_is_given_is_listed(split::lines(saved), f);
    assert(manager::session_lines(saved) == split::filter_map(split::lines(saved), f));
    assert forall|i: int|
        0 <= i < split::lines(saved).len() && split::trim(
            #[trigger] split::lines(saved)[i],
        ).len() > 0 implies at.contains(i) by {
        assert(f(split::lines(saved)[i]) is Some);
    }
    at
}

// ------------------------------------------------------------------ what is left out

/// The sockets of a table are those that its lines but the first tell of.
pub proof fn sockets_come_from_lines(s: Seq<char>, x: (u64, u16))
    ensures
        ports::proc_sockets(s).contains(x) <==> exists|k: int|
            1 <= k < split::lines(s).len() && ports::proc_line(#[trigger] split::lines(s)[k])
                == Some(x),
{
    let f = |l: Seq<char>| ports::proc_line(l);
    let lines = split::lines(s);
    let body = split::rest(lines);
    let at = laws_text::what_is_given_is_listed(body, f);
    let all = ports::proc_sockets(s);
    if all.contains(x) {
        let k = choose|k: int| 0 <= k < all.len() && all[k] == x;
        assert(f(body[at[k]]) == Some(all[k]));
        assert(body[at[k]] == lines[at[k] + 1]);
        assert(ports::proc_line(split::lines(s)[at[k] + 1]) == Some(x));
    }
    if exists|k: int| 1 <= k < lines.len() && ports::proc_line(#[trigger] lines[k]) == Some(x) {
        let k = choose|k: int|
            1 <= k < lines.len() && ports::proc_line(#[trigger] lines[k]) == Some(x);
        assert(body[k - 1] == lines[k]);
        assert(f(body[k - 1]) is Some);
    }
}

/// The listeners among the connections are those that its lines tell of.
pub proof fn listeners_come_from_lines(s: Seq<char>, x: ports::PortEntryView)
    ensures
        ports::netstat_entries(s).contains(x) <==> exists|k: int|
            0 <= k < split::lines(s).len() && ports::netstat_line(#[trigger] split::lines(s)[k])
                == Some(x),
{
    let f = |l: Seq<char>| ports::netstat_line(l);
    let lines = split::lines(s);
    let at = laws_text::what_is_given_is_listed(lines, f);
    let all = ports::netstat_entries(s);
    if all.contains(x) {
        let k = choose|k: int| 0 <= k < all.len() && all[k] == x;
        assert(f(lines[at[k]]) == Some(all[k]));
        assert(ports::netstat_line(split::lines(s)[at[k]]) == Some(x));
    }
    if exists|k: int| 0 <= k < lines.len() && ports::netstat_line(#[trigger] lines[k]) == Some(x) {
        let k = choose|k: int|
            0 <= k < lines.len() && ports::netstat_line(#[trigger] lines[k]) == Some(x);
        assert(f(lines[k]) is Some);
    }
}

/// A line with too few words tells of no socket and of no connection.
pub proof fn short_lines_are_skipped(line: Seq<char>)
    ensures
        split::words(line).len() < 10 ==> ports::proc_line(line) is None,
        split::words(line).len() < 5 ==> ports::netstat_line(line) is None,
{
}

/// A text that is only a port, or ends in one behind a colon, names that port; a range whose end
/// is no port names none.
pub proof fn other_ports_are_read(a: Seq<char>, port: u16, bad: Seq<char>, rest: Seq<char>)
    requires
        !a.contains('>'),
        !bad.contains('>'),
        !bad.contains(':'),
        text::parse_unsigned(bad, 10, 0xffff) is None,
    ensures
        docker::host_port_of(text::decimal(port as nat)) == Some(port),
        docker::host_port_of(a + seq![':'] + text::decimal(port as nat)) == Some(port),
        docker::host_port_of(
            a + seq![':'] + text::decimal(port as nat) + seq!['-'] + bad + "->"@ + rest,
        ) is None,
{
    let d = text::decimal(port as nat);
    lemma_no_colon(port as nat);
    laws_text::decimals_read_back(port as nat, 0xffff);
    laws_text::the_last_piece_is_the_rest(a, d, ':');
    lemma_no_arrow(d);
    assert forall|i: int| 0 <= i < (a + seq![':'] + d).len() implies #[trigger] (a + seq![':']
        + d)[i] != '>' by {
        let t = a + seq![':'] + d;
        if t[i] == '>' {
            if i < a.len() {
                assert(a[i] == '>');
            } else if i > a.len() {
                assert(d[i - a.len() - 1] == '>');
            }
        }
    }
    lemma_no_arrow(a + seq![':'] + d);
    // A broken range.
    let range = d + seq!['-'] + bad;
    let t = a + seq![':'] + range;
    assert(a + seq![':'] + d + seq!['-'] + bad =~= t);
    assert forall|i: int| 0 <= i < t.len() implies #[trigger] t[i] != '>' by {
        let n = a.len() + 1 + d.len();
        if t[i] == '>' {
            if i < a.len() {
                assert(a[i] == '>');
            } else if a.len() < i < n {
                assert(d[i - a.len() - 1] == '>');
            } else if i > n {
                assert(bad[i - n - 1] == '>');
            }
        }
    }
    lemma_before_arrow(t, rest);
    assert(!range.contains(':')) by {
        if range.contains(':') {
            let i = choose|i: int| 0 <= i < range.len() && range[i] == ':';
            if i < d.len() {
                assert(d[i] == ':');
            } else if i > d.len() {
                assert(bad[i - d.len() - 1] == ':');
            }
        }
    }
    laws_text::the_last_piece_is_the_rest(a, range, ':');
    lemma_first_dash(d, bad);
    assert(range[d.len() as int] == '-');
    laws_text::decimals_are_digits(port as nat);
    laws_text::numbers_have_digits_only(range, d.len() as int, 10);
}

proof fn lemma_no_arrow(t: Seq<char>)
    requires
        forall|i: int| 0 <= i < t.len() ==> #[trigger] t[i] != '>',
    ensures
        split::find(t, "->"@, 0) is None,
        split::before(t, "->"@) == t,
{
    reveal_strlit("->");
    laws_text::the_first_place_is_found(t, "->"@, 0);
    if let Some(i) = split::find(t, "->"@, 0) {
        assert(t.subrange(i, i + 2)[1] == '>');
        assert(t[i + 1] == '>');
    }
}

/// The port of a URL stands behind the last colon of its host; a URL with a port that is none, or
/// without a host, is no target.
pub proof fn ports_stand_behind_the_last_colon(
    host: Seq<char>,
    port: u16,
    bad: Seq<char>,
    path: Seq<char>,
)
    requires
        !host.contains('/'),
        !bad.contains('/'),
        !bad.contains(':'),
        text::parse_unsigned(bad, 10, 0xffff) is None,
    ensures
        ({
            let t = health::url_target(
                "http://"@ + (host + seq![':'] + text::decimal(port as nat) + seq!['/'] + path),
            );
            &&& host.len() > 0 ==> t is Some && t->0.host == host && t->0.port == port && t->0.path
                == seq!['/'] + path
            &&& host.len() == 0 ==> t is None
        }),
        health::url_target("http://"@ + (host + seq![':'] + bad + seq!['/'] + path)) is None,
        health::url_target("http://"@ + (seq!['/'] + path)) is None,
{
    let d = text::decimal(port as nat);
    let broken = host + seq![':'] + bad;
    let none = Seq::<char>::empty();
    lemma_authority(host, port);
    lemma_no_slash(host, d);
    lemma_no_slash(host, bad);
    split::lemma_one_more_piece(host, bad, ':');
    split::split_is_nonempty(host, ':');
    assert(health::host_and_port(broken) is None);
    split::lemma_one_piece(none, ':');
    assert(health::host_and_port(none) is None);
    lemma_target(host + seq![':'] + d, path);
    lemma_target(broken, path);
    lemma_target(none, path);
    assert(none + seq!['/'] + path =~= seq!['/'] + path);
}

/// What does not begin with the protocol is no response.
pub proof fn other_texts_are_no_response(response: Seq<char>)
    ensures
        split::lines(response).len() == 0 ==> health::response_code(response) is None,
        split::lines(response).len() > 0 && (split::words(split::lines(response)[0]).len() < 2
            || !split::begins(split::words(split::lines(response)[0])[0], "HTTP/"@))
            ==> health::response_code(response) is None,
        split::lines(response).len() > 0 && split::words(split::lines(response)[0]).len() >= 2
            && text::parse_unsigned(split::words(split::lines(response)[0])[1], 10, 0xffff) is None
            ==> health::response_code(response) is None,
{
}

/// The difference lists first what the process has otherwise or alone, in the order of the
/// process, and then what it has not, in the order of the shell, each name once. The results say
/// which variables they are.
pub proof fn differences_come_in_two_parts(
    theirs: Seq<(Seq<char>, Seq<char>)>,
    ours: Seq<(Seq<char>, Seq<char>)>,
) -> (at: (Seq<int>, Seq<int>))
    ensures
        env::diff_lines(theirs, ours).len() == at.0.len() + at.1.len(),
        forall|k: int, l: int| 0 <= k < l < at.0.len() ==> #[trigger] at.0[k] < #[trigger] at.0[l],
        forall|k: int, l: int| 0 <= k < l < at.1.len() ==> #[trigger] at.1[k] < #[trigger] at.1[l],
        forall|k: int|
            0 <= k < at.0.len() ==> 0 <= #[trigger] at.0[k] < theirs.len() && env::value_of(
                ours,
                theirs[at.0[k]].0,
            ) != Some(theirs[at.0[k]].1) && Some(env::diff_lines(theirs, ours)[k])
                == env::process_line(ours, theirs[at.0[k]]),
        forall|i: int|
            0 <= i < theirs.len() && env::value_of(ours, (#[trigger] theirs[i]).0) != Some(
                theirs[i].1,
            ) ==> at.0.contains(i),
        forall|k: int|
            0 <= k < at.1.len() ==> 0 <= #[trigger] at.1[k] < ours.len() && !env::is_set(
                theirs,
                ours[at.1[k]].0,
            ) && !env::is_set(ours.take(at.1[k]), ours[at.1[k]].0) && env::diff_lines(
                theirs,
                ours,
            )[at.0.len() + k] == "- "@ + ours[at.1[k]].0 + " (not inherited)"@,
{
    let f = |kv: (Seq<char>, Seq<char>)| env::process_line(ours, kv);
    let first = laws_text::what_is_given_is_listed(theirs, f);
    let listed = split::filter_map(theirs, f);
    let second = lemma_missing_once(theirs, ours);
    let all = env::diff_lines(theirs, ours);
    assert forall|k: int| 0 <= k < first.len() implies 0 <= #[trigger] first[k] < theirs.len()
        && env::value_of(ours, theirs[first[k]].0) != Some(theirs[first[k]].1) && Some(all[k])
        == env::process_line(ours, theirs[first[k]]) by {
        assert(f(theirs[first[k]]) == Some(listed[k]));
        assert(all[k] == listed[k]);
    }
    assert forall|i: int|
        0 <= i < theirs.len() && env::value_of(ours, (#[trigger] theirs[i]).0) != Some(
            theirs[i].1,
        ) implies first.contains(i) by {
        assert(f(theirs[i]) is Some);
    }
    assert forall|k: int| 0 <= k < second.len() implies 0 <= #[trigger] second[k] < ours.len()
        && !env::is_set(theirs, ours[second[k]].0) && !env::is_set(
        ours.take(second[k]),
        ours[second[k]].0,
    ) && all[first.len() + k] == "- "@ + ours[second[k]].0 + " (not inherited)"@ by {
        assert(all[first.len() + k] == env::missing_lines(theirs, ours)[k]);
    }
    (first, second)
}

proof fn lemma_missing_once(
    theirs: Seq<(Seq<char>, Seq<char>)>,
    ours: Seq<(Seq<char>, Seq<char>)>,
) -> (at: Seq<int>)
    ensures
        at.len() == env::missing_lines(theirs, ours).len(),
        forall|k: int, l: int| 0 <= k < l < at.len() ==> #[trigger] at[k] < #[trigger] at[l],
        forall|k: int|
            0 <= k < at.len() ==> 0 <= #[trigger] at[k] < ours.len() && !env::is_set(
                theirs,
                ours[at[k]].0,
            ) && !env::is_set(ours.take(at[k]), ours[at[k]].0) && env::missing_lines(
                theirs,
                ours,
            )[k] == "- "@ + ours[at[k]].0 + " (not inherited)"@,
    decreases ours.len(),
{
    if ours.len() == 0 {
        Seq::empty()
    } else {
        let rest = ours.drop_last();
        let n = ours.len() - 1;
        let before = lemma_missing_once(theirs, rest);
        let told = env::missing_lines(theirs, rest);
        let all = env::missing_lines(theirs, ours);
        let at = if env::is_set(theirs, ours.last().0) || env::is_set(rest, ours.last().0) {
            before
        } else {
            before.push(n)
        };
        assert(ours.take(n) =~= rest);
        assert forall|k: int| 0 <= k < at.len() implies 0 <= #[trigger] at[k] < ours.len()
            && !env::is_set(theirs, ours[at[k]].0) && !env::is_set(ours.take(at[k]), ours[at[k]].0)
            && all[k] == "- "@ + ours[at[k]].0 + " (not inherited)"@ by {
            if k < before.len() {
                assert(at[k] == before[k]);
                assert(rest[before[k]] == ours[before[k]]);
                assert(rest.take(before[k]) =~= ours.take(before[k]));
                assert(all[k] == told[k]);
            }
        }
        at
    }
}

/// The variables of a process are read in order; what has no equals sign is none. The result says
/// which entry each comes from.
pub proof fn variables_are_read_in_order(environ: Seq<Seq<char>>) -> (at: Seq<int>)
    ensures
        at.len() == env::environ_pairs(environ).len(),
        forall|k: int|
            0 <= k < at.len() ==> 0 <= #[trigger] at[k] < environ.len() && ({
                let (name, value) = env::environ_pairs(environ)[k];
                &&& environ[at[k]] == name + "="@ + value
                &&& !split::contains(name, "="@)
            }),
        forall|k: int, l: int| 0 <= k < l < at.len() ==> #[trigger] at[k] < #[trigger] at[l],
        forall|i: int|
            0 <= i < environ.len() ==> (at.contains(i) <==> split::contains(
                #[trigger] environ[i],
                "="@,
            )),
{
    reveal_strlit("=");
    let f = |kv: Seq<char>| split::split_once(kv, "="@);
    let at = laws_text::what_is_given_is_listed(environ, f);
    let all = env::environ_pairs(environ);
    assert forall|k: int| 0 <= k < at.len() implies 0 <= #[trigger] at[k] < environ.len() && ({
        let (name, value) = all[k];
        &&& environ[at[k]] == name + "="@ + value
        &&& !split::contains(name, "="@)
    }) by {
        let s = environ[at[k]];
        assert(f(s) == Some(all[k]));
        laws_text::texts_are_cut_once(s, "="@);
        let (name, value) = all[k];
        if split::contains(name, "="@) {
            let j = choose|j: int| split::stands_at(name, j, "="@);
            assert(s.subrange(j, j + 1) =~= name.subrange(j, j + 1));
        }
    }
    assert forall|i: int| 0 <= i < environ.len() implies (at.contains(i) <==> split::contains(
        #[trigger] environ[i],
        "="@,
    )) by {
        laws_text::texts_are_cut_once(environ[i], "="@);
        split::lemma_find(environ[i], "="@, 0);
        if at.contains(i) {
            let k = choose|k: int| 0 <= k < at.len() && at[k] == i;
            assert(f(environ[at[k]]) == Some(all[k]));
            let j = split::find(environ[i], "="@, 0)->0;
            assert(split::stands_at(environ[i], j, "="@));
        }
        if split::contains(environ[i], "="@) {
            assert(f(environ[i]) is Some);
        }
    }
    at
}

} // verus!
