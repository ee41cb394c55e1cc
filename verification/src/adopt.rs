//! The block of the configuration file that a process becomes when it is adopted.
use vstd::prelude::*;
use crate::services;
use crate::services::ServiceConfig;
use crate::text;
use crate::text::{chars_of, push_decimal, push_text};

verus! {

/// A text as a TOML value; see [`toml_string`].
pub uninterp spec fn toml_literal(s: Seq<char>) -> Seq<char>;

/// How many quotes in a row are too many to be counted when a text is quoted.
pub const QUOTES_MAX: usize = 256;

/// Whether as many of a character as are too many stand from a position on.
pub open spec fn long_run(s: Seq<char>, i: int, c: char) -> bool {
    0 <= i && i + QUOTES_MAX <= s.len() && forall|j: int|
        i <= j < i + QUOTES_MAX ==> #[trigger] s[j] == c
}

/// Whether no stretch of a text is too many of a character in a row.
pub open spec fn no_long_run(s: Seq<char>, c: char) -> bool {
    forall|i: int| !#[trigger] long_run(s, i, c)
}

/// Whether a text can be quoted: neither too many single nor too many double quotes follow one
/// another in it.
pub open spec fn quotable(s: Seq<char>) -> bool {
    no_long_run(s, '\'') && no_long_run(s, '"')
}

/// Whether the texts of a service can be quoted.
pub open spec fn config_quotable(cfg: services::ServiceConfigView) -> bool {
    quotable(cfg.name) && quotable(cfg.cmd) && (cfg.cwd is Some ==> quotable(cfg.cwd->0))
}

fn has_no_long_run(s: &Vec<char>, c: char) -> (r: bool)
    ensures
        r == no_long_run(s@, c),
{
    let mut run: usize = 0;
    for k in 0..s.len()
        invariant
            run <= k,
            run < QUOTES_MAX,
            forall|j: int| k - run <= j < k ==> #[trigger] s@[j] == c,
            run < k ==> s@[k - run - 1] != c,
            forall|i: int| i + QUOTES_MAX <= k ==> !#[trigger] long_run(s@, i, c),
    {
        if s[k] == c {
            run = run + 1;
            if run == QUOTES_MAX {
                assert(long_run(s@, k + 1 - QUOTES_MAX, c));
                return false;
            }
        } else {
            run = 0;
        }
        assert forall|i: int| i + QUOTES_MAX <= k + 1 implies !#[trigger] long_run(s@, i, c) by {
            if i + QUOTES_MAX == k + 1 && long_run(s@, i, c) {
                assert(s@[k - run] != c);
                assert(i <= k - run < i + QUOTES_MAX);
            }
        }
    }
    true
}

/// Tells whether a text can be quoted; see [`quotable`].
pub fn is_quotable(s: &str) -> (r: bool)
    ensures
        r == quotable(s@),
{
    let chars = chars_of(s);
    has_no_long_run(&chars, '\'') && has_no_long_run(&chars, '"')
}

/// Tells whether the texts of a service can be quoted; see [`config_quotable`].
pub fn is_config_quotable(cfg: &ServiceConfig) -> (r: bool)
    ensures
        r == config_quotable(cfg@),
{
    let cwd = match &cfg.cwd {
        Some(d) => is_quotable(d.as_str()),
        None => true,
    };
    is_quotable(cfg.name.as_str()) && is_quotable(cfg.cmd.as_str()) && cwd
}

/// `toml::Value::to_string` of a string: the text, quoted and escaped as a TOML value. How it is
/// quoted is the crate's business and has no clause here beyond that it depends on the text
/// alone. The crate counts quotes that follow one another in a byte, so a text with more of
/// them in a row than a byte counts is left out.
#[verifier::external_body]
fn toml_string(s: &str) -> (r: String)
    requires
        quotable(s@),
    ensures
        r@ == toml_literal(s@),
{
    toml::Value::String(s.to_owned()).to_string()
}

/// The block of a service, given its texts as TOML values.
pub open spec fn block_text(
    name: Seq<char>,
    cmd: Seq<char>,
    cwd: Option<Seq<char>>,
    port: Option<u16>,
) -> Seq<char> {
    "\n[[service]]\nname = "@ + name + "\ncmd = "@ + cmd + "\n"@ + (match cwd {
        Some(d) => "cwd = "@ + d + "\n"@,
        None => Seq::empty(),
    }) + (match port {
        Some(p) => "port = "@ + text::decimal(p as nat) + "\n"@,
        None => Seq::empty(),
    })
}

/// The block of a service.
pub open spec fn service_block_text(cfg: services::ServiceConfigView) -> Seq<char> {
    block_text(
        toml_literal(cfg.name),
        toml_literal(cfg.cmd),
        match cfg.cwd {
            Some(d) => Some(toml_literal(d)),
            None => None,
        },
        cfg.port,
    )
}

/// The block of a service, given its texts as TOML values; see [`block_text`].
pub fn block(name: &str, cmd: &str, cwd: &Option<String>, port: Option<u16>) -> (r: String)
    ensures
        r@ == block_text(name@, cmd@, text::opt_text(*cwd), port),
{
    let mut out = "\n[[service]]\nname = ".to_owned();
    push_text(&mut out, name);
    push_text(&mut out, "\ncmd = ");
    push_text(&mut out, cmd);
    push_text(&mut out, "\n");
    let mut at = String::new();
    if let Some(d) = cwd {
        at = "cwd = ".to_owned();
        push_text(&mut at, d.as_str());
        push_text(&mut at, "\n");
    }
    assert(at@ =~= (match text::opt_text(*cwd) {
        Some(d) => "cwd = "@ + d + "\n"@,
        None => Seq::empty(),
    }));
    push_text(&mut out, at.as_str());
    let mut on = String::new();
    if let Some(p) = port {
        on = "port = ".to_owned();
        push_decimal(&mut on, p as u64);
        push_text(&mut on, "\n");
    }
    assert(on@ =~= (match port {
        Some(p) => "port = "@ + text::decimal(p as nat) + "\n"@,
        None => Seq::empty(),
    }));
    push_text(&mut out, on.as_str());
    out
}

/// The block of a service, as it is appended to the configuration file.
pub fn service_block(cfg: &ServiceConfig) -> (r: String)
    requires
        config_quotable(cfg@),
    ensures
        r@ == service_block_text(cfg@),
{
    let name = toml_string(cfg.name.as_str());
    let cmd = toml_string(cfg.cmd.as_str());
    let cwd = match &cfg.cwd {
        Some(d) => Some(toml_string(d.as_str())),
        None => None,
    };
    block(name.as_str(), cmd.as_str(), &cwd, cfg.port)
}

} // verus!
