//! Health probes: what is asked of a service and when its answer counts as healthy.
use vstd::prelude::*;
use crate::split;
use crate::split::{copy_range, position, split_at, split_lines, split_words, starts_with};
use crate::text;
use crate::text::{chars_of, parse_u16, push_text, string_of};

verus! {

/// How long a probe may take, in milliseconds.
pub const HEALTH_TIMEOUT: u64 = 200;

/// Where a health URL points.
pub struct HttpTarget {
    pub host: String,
    pub port: u16,
    pub path: String,
}

/// What an [`HttpTarget`] says.
pub ghost struct HttpTargetView {
    pub host: Seq<char>,
    pub port: u16,
    pub path: Seq<char>,
}

impl View for HttpTarget {
    type V = HttpTargetView;

    open spec fn view(&self) -> HttpTargetView {
        HttpTargetView { host: self.host@, port: self.port, path: self.path@ }
    }
}

/// The host and port of the authority part of a URL. The port is what follows the last colon;
/// without one it is 80.
pub open spec fn host_and_port(authority: Seq<char>) -> Option<(Seq<char>, u16)> {
    let parts = split::split(authority, ':');
    if parts.len() == 1 {
        if authority.len() == 0 {
            None
        } else {
            Some((authority, 80))
        }
    } else {
        match text::parse_unsigned(parts.last(), 10, 0xffff) {
            Some(p) => {
                let host = authority.take(authority.len() - parts.last().len() - 1);
                if host.len() == 0 {
                    None
                } else {
                    Some((host, p as u16))
                }
            },
            None => None,
        }
    }
}

/// Where a URL of the form `http://host[:port][/path]` points. Other schemes are not
/// supported.
pub open spec fn url_target(url: Seq<char>) -> Option<HttpTargetView> {
    match split::strip_prefix(url, "http://"@) {
        None => None,
        Some(rest) => {
            let slash = split::find(rest, "/"@, 0);
            let authority = match slash {
                Some(i) => rest.take(i),
                None => rest,
            };
            let path = match slash {
                Some(i) => rest.skip(i),
                None => "/"@,
            };
            match host_and_port(authority) {
                Some((host, port)) => Some(HttpTargetView { host, port, path }),
                None => None,
            }
        },
    }
}

proof fn lemma_last_piece(s: Seq<char>, sep: char)
    ensures
        split::split(s, sep).len() >= 1,
        split::split(s, sep).last().len() <= s.len(),
        split::split(s, sep).len() > 1 ==> split::split(s, sep).last().len() < s.len(),
    decreases s.len(),
{
    if s.len() > 0 {
        lemma_last_piece(s.drop_last(), sep);
    }
}

fn parse_authority(authority: &Vec<char>) -> (r: Option<(String, u16)>)
    ensures
        match r {
            Some(t) => host_and_port(authority@) == Some((t.0@, t.1)),
            None => host_and_port(authority@) is None,
        },
{
    let parts = split_at(authority.as_slice(), ':');
    let ghost pv = text::views(parts@);
    proof {
        lemma_last_piece(authority@, ':');
        assert(pv.last() == parts@.last()@);
    }
    if parts.len() == 1 {
        if authority.len() == 0 {
            return None;
        }
        return Some((string_of(authority.as_slice()), 80));
    }
    let last = &parts[parts.len() - 1];
    let port = match parse_u16(last.as_slice()) {
        Some(p) => p,
        None => {
            return None;
        },
    };
    let host = copy_range(authority.as_slice(), 0, authority.len() - last.len() - 1);
    assert(host@ =~= authority@.take(authority@.len() - last@.len() - 1));
    if host.len() == 0 {
        return None;
    }
    Some((string_of(host.as_slice()), port))
}

/// Reads a health URL; see [`url_target`].
pub fn parse_health_url(url: &str) -> (r: Option<HttpTarget>)
    ensures
        match r {
            Some(t) => url_target(url@) == Some(t@),
            None => url_target(url@) is None,
        },
{
    let chars = chars_of(url);
    if !starts_with(chars.as_slice(), "http://") {
        return None;
    }
    proof {
        reveal_strlit("http://");
        assert("http://"@.len() == 7);
    }
    let rest = copy_range(chars.as_slice(), 7, chars.len());
    assert(rest@ =~= url@.skip(7));
    let slash = chars_of("/");
    let (authority, path) = match position(rest.as_slice(), slash.as_slice()) {
        Some(i) => {
            let a = copy_range(rest.as_slice(), 0, i);
            let p = copy_range(rest.as_slice(), i, rest.len());
            assert(a@ =~= rest@.take(i as int));
            assert(p@ =~= rest@.skip(i as int));
            (a, p)
        },
        None => {
            let a = copy_range(rest.as_slice(), 0, rest.len());
            assert(a@ =~= rest@);
            (a, slash)
        },
    };
    match parse_authority(&authority) {
        Some((host, port)) => Some(HttpTarget { host, port, path: string_of(path.as_slice()) }),
        None => None,
    }
}

/// The request that a probe sends.
pub fn http_request(target: &HttpTarget) -> (r: String)
    ensures
        r@ == "GET "@ + target.path@ + " HTTP/1.1\r\nHost: "@ + target.host@
            + "\r\nConnection: close\r\n\r\n"@,
{
    let mut out = "GET ".to_owned();
    push_text(&mut out, target.path.as_str());
    push_text(&mut out, " HTTP/1.1\r\nHost: ");
    push_text(&mut out, target.host.as_str());
    push_text(&mut out, "\r\nConnection: close\r\n\r\n");
    out
}

/// The status code in a response: the second word of its first line, when the first word
/// names the protocol.
pub open spec fn response_code(response: Seq<char>) -> Option<u16> {
    let lines = split::lines(response);
    if lines.len() == 0 {
        None
    } else {
        let f = split::words(lines[0]);
        if f.len() < 2 || !split::begins(f[0], "HTTP/"@) {
            None
        } else {
            match text::parse_unsigned(f[1], 10, 0xffff) {
                Some(c) => Some(c as u16),
                None => None,
            }
        }
    }
}

/// Whether a service that gave this response is healthy.
pub fn http_healthy(response: &str) -> (r: bool)
    ensures
        r == (response_code(response@) == Some(200u16)),
{
    let chars = chars_of(response);
    let lines = split_lines(chars.as_slice());
    let ghost all = text::views(lines@);
    if lines.len() == 0 {
        return false;
    }
    assert(all[0] == lines@[0]@);
    let f = split_words(lines[0].as_slice());
    let ghost fv = text::views(f@);
    if f.len() < 2 {
        return false;
    }
    assert(fv[0] == f@[0]@ && fv[1] == f@[1]@);
    if !starts_with(f[0].as_slice(), "HTTP/") {
        return false;
    }
    match parse_u16(f[1].as_slice()) {
        Some(c) => c == 200,
        None => false,
    }
}

} // verus!
