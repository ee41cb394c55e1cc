//! Docker container awareness: what is asked of the `docker` command line and what it answers.
use vstd::prelude::*;
use crate::platform;
use crate::platform::{run_ok, Output};
use crate::split;
use crate::split::{copy_range, position, split_at, split_lines};
use crate::text;
use crate::text::{chars_of, parse_u16, string_of, strings};

verus! {

/// A running container.
#[derive(Debug, Clone)]
pub struct Container {
    pub id: String,
    pub name: String,
    pub image: String,
    pub ports: String,
    pub status: String,
}

/// What a [`Container`] says.
pub ghost struct ContainerView {
    pub id: Seq<char>,
    pub name: Seq<char>,
    pub image: Seq<char>,
    pub ports: Seq<char>,
    pub status: Seq<char>,
}

impl View for Container {
    type V = ContainerView;

    open spec fn view(&self) -> ContainerView {
        ContainerView {
            id: self.id@,
            name: self.name@,
            image: self.image@,
            ports: self.ports@,
            status: self.status@,
        }
    }
}

/// What a list of containers says.
pub open spec fn containers(v: Seq<Container>) -> Seq<ContainerView> {
    Seq::new(v.len(), |i: int| v[i]@)
}

/// The text of the first host port in a list such as
/// `0.0.0.0:5432->5432/tcp, [::]:5432->5432/tcp`: what stands between the last colon before the
/// first arrow and that arrow. Of a published range such as `0.0.0.0:8000-8001->8000-8001/tcp`
/// it is the first port; a range without an arrow is not published and stays as it is, and so
/// does what is no range of port numbers.
pub open spec fn host_port_text(ports: Seq<char>) -> Seq<char> {
    let host = split::after_last(split::before(ports, "->"@), ':');
    match split::find(ports, "->"@, 0) {
        Some(_) => range_start(host),
        None => host,
    }
}

/// The first port of a range, where what follows its first dash is a port number; any other
/// text as it is.
pub open spec fn range_start(host: Seq<char>) -> Seq<char> {
    match split::split_once(host, "-"@) {
        Some((first, last)) => if text::parse_unsigned(last, 10, 0xffff) is Some {
            first
        } else {
            host
        },
        None => host,
    }
}

/// The first host port of a container.
pub open spec fn host_port_of(ports: Seq<char>) -> Option<u16> {
    match text::parse_unsigned(host_port_text(ports), 10, 0xffff) {
        Some(p) => Some(p as u16),
        None => None,
    }
}

impl Container {
    /// First published host port, for open-in-browser / clipboard.
    pub fn host_port(&self) -> (r: Option<u16>)
        ensures
            r == host_port_of(self@.ports),
    {
        first_host_port(self.ports.as_str())
    }
}

/// Pulls the first host port out of a docker ports string; see [`host_port_of`].
pub fn first_host_port(ports: &str) -> (r: Option<u16>)
    ensures
        r == host_port_of(ports@),
{
    let chars = chars_of(ports);
    let arrow = chars_of("->");
    let found = position(chars.as_slice(), arrow.as_slice());
    let head = match found {
        Some(i) => until(chars.as_slice(), i),
        None => chars,
    };
    let mut parts = split_at(head.as_slice(), ':');
    let ghost all = text::views(parts@);
    match parts.pop() {
        Some(last) => {
            assert(last@ == all.last());
            if found.is_none() {
                return parse_u16(last.as_slice());
            }
            let first = start_of_range(last);
            parse_u16(first.as_slice())
        },
        None => None,
    }
}

fn start_of_range(host: Vec<char>) -> (r: Vec<char>)
    ensures
        r@ == range_start(host@),
{
    let dash = chars_of("-");
    assert(dash@.len() == 1) by {
        reveal_strlit("-");
    }
    match position(host.as_slice(), dash.as_slice()) {
        Some(i) => {
            let n = host.len();
            let last = copy_range(host.as_slice(), i + 1, n);
            assert(last@ =~= host@.skip(i + 1));
            if parse_u16(last.as_slice()).is_some() {
                until(host.as_slice(), i)
            } else {
                host
            }
        },
        None => host,
    }
}

fn until(s: &[char], i: usize) -> (r: Vec<char>)
    requires
        i <= s@.len(),
    ensures
        r@ == s@.take(i as int),
{
    assert(s@.subrange(0, i as int) =~= s@.take(i as int));
    copy_range(s, 0, i)
}

/// What a line of `docker ps` says in the format of [`list_args`]: five fields, a tab between
/// each two; what follows a fifth is ignored.
pub open spec fn ps_line(line: Seq<char>) -> Option<ContainerView> {
    let f = split::split(line, '\t');
    if f.len() < 5 {
        None
    } else {
        Some(ContainerView { id: f[0], name: f[1], image: f[2], ports: f[3], status: f[4] })
    }
}

/// The containers in `docker ps` output.
pub open spec fn ps_containers(s: Seq<char>) -> Seq<ContainerView> {
    split::filter_map(split::lines(s), |l: Seq<char>| ps_line(l))
}

/// Reads `docker ps` output into containers.
pub fn parse_ps(s: &str) -> (r: Vec<Container>)
    ensures
        containers(r@) == ps_containers(s@),
{
    let chars = chars_of(s);
    let lines = split_lines(chars.as_slice());
    let ghost all = text::views(lines@);
    let ghost f = |l: Seq<char>| ps_line(l);
    let mut out: Vec<Container> = Vec::new();
    assert(all.take(0) =~= Seq::<Seq<char>>::empty());
    assert(containers(out@) =~= Seq::<ContainerView>::empty());
    for i in 0..lines.len()
        invariant
            all == text::views(lines@),
            f == (|l: Seq<char>| ps_line(l)),
            containers(out@) == split::filter_map(all.take(i as int), f),
    {
        proof {
            assert(all.take(i + 1).drop_last() =~= all.take(i as int));
            assert(all.take(i + 1).last() == lines@[i as int]@);
        }
        let ghost earlier = containers(out@);
        let fields = split_at(lines[i].as_slice(), '\t');
        let ghost fv = text::views(fields@);
        if fields.len() >= 5 {
            let c = Container {
                id: string_of(fields[0].as_slice()),
                name: string_of(fields[1].as_slice()),
                image: string_of(fields[2].as_slice()),
                ports: string_of(fields[3].as_slice()),
                status: string_of(fields[4].as_slice()),
            };
            let ghost cv = c@;
            proof {
                assert(fv[0] == cv.id && fv[1] == cv.name && fv[2] == cv.image);
                assert(fv[3] == cv.ports && fv[4] == cv.status);
            }
            out.push(c);
            assert(containers(out@) =~= earlier.push(cv));
        }
    }
    assert(all.take(lines@.len() as int) =~= all);
    out
}

/// The `docker` arguments that list the running containers.
pub fn list_args() -> (r: Vec<String>)
    ensures
        text::texts(r@) == seq![
            "ps"@,
            "--format"@,
            "{{.ID}}\t{{.Names}}\t{{.Image}}\t{{.Ports}}\t{{.Status}}"@,
        ],
{
    let r = strings(
        &["ps", "--format", "{{.ID}}\t{{.Names}}\t{{.Image}}\t{{.Ports}}\t{{.Status}}"],
    );
    assert(text::texts(r@) =~= seq![
        "ps"@,
        "--format"@,
        "{{.ID}}\t{{.Names}}\t{{.Image}}\t{{.Ports}}\t{{.Status}}"@,
    ]);
    r
}

/// The running containers, from what `docker ps` gave back: `Err` with the reason when it
/// could not be run or failed.
pub fn list(reply: &Result<Output, String>) -> (r: Result<Vec<Container>, String>)
    ensures
        match *reply {
            Err(e) => r matches Err(f) && f@ == e@,
            Ok(out) => if out.success {
                r matches Ok(v) && containers(v@) == ps_containers(out.stdout@)
            } else {
                r matches Err(f) && f@ == split::trim(out.stderr@)
            },
        },
{
    match run_ok(reply) {
        Ok(stdout) => Ok(parse_ps(stdout.as_str())),
        Err(e) => Err(e),
    }
}

/// The `docker` arguments that stop a container, with the time it has to comply.
pub fn stop(id: &str) -> (r: Vec<String>)
    ensures
        text::texts(r@) == seq!["stop"@, "-t"@, "3"@, id@],
{
    let r = strings(&["stop", "-t", "3", id]);
    assert(text::texts(r@) =~= seq!["stop"@, "-t"@, "3"@, id@]);
    r
}

/// The `docker` arguments that restart a container, with the time it has to stop.
pub fn restart(id: &str) -> (r: Vec<String>)
    ensures
        text::texts(r@) == seq!["restart"@, "-t"@, "3"@, id@],
{
    let r = strings(&["restart", "-t", "3", id]);
    assert(text::texts(r@) =~= seq!["restart"@, "-t"@, "3"@, id@]);
    r
}

} // verus!
