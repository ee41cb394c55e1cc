//! Comparing a process's environment with the current one.
use vstd::prelude::*;
use crate::split;
use crate::split::{copy_range, position};
use crate::text;
use crate::text::{chars_of, push_text, string_of};

verus! {

/// The order of texts by their characters, the first that differs deciding; a text comes
/// before those it begins.
pub open spec fn text_le(a: Seq<char>, b: Seq<char>) -> bool
    decreases a.len(),
{
    if a.len() == 0 {
        true
    } else if b.len() == 0 {
        false
    } else if a[0] == b[0] {
        text_le(a.skip(1), b.skip(1))
    } else {
        a[0] < b[0]
    }
}

/// Whether texts stand in order.
pub open spec fn in_order(s: Seq<Seq<char>>) -> bool {
    forall|i: int, j: int| 0 <= i < j < s.len() ==> text_le(#[trigger] s[i], #[trigger] s[j])
}

/// Of two texts one comes before the other or they are equal, and not both unless they are.
pub proof fn text_le_is_total(a: Seq<char>, b: Seq<char>)
    ensures
        text_le(a, b) || text_le(b, a),
        text_le(a, b) && text_le(b, a) ==> a == b,
    decreases a.len(),
{
    if a.len() > 0 && b.len() > 0 {
        text_le_is_total(a.skip(1), b.skip(1));
        if text_le(a, b) && text_le(b, a) {
            assert(a =~= seq![a[0]] + a.skip(1));
            assert(b =~= seq![b[0]] + b.skip(1));
        }
    } else if a.len() == 0 && b.len() == 0 {
        assert(a =~= b);
    }
}

/// The order carries over from text to text.
pub proof fn text_le_is_transitive(a: Seq<char>, b: Seq<char>, c: Seq<char>)
    requires
        text_le(a, b),
        text_le(b, c),
    ensures
        text_le(a, c),
    decreases a.len(),
{
    if a.len() > 0 && b.len() > 0 && c.len() > 0 && a[0] == b[0] && b[0] == c[0] {
        text_le_is_transitive(a.skip(1), b.skip(1), c.skip(1));
    }
}

proof fn lemma_le_from(a: Seq<char>, b: Seq<char>, i: int)
    requires
        0 <= i <= a.len(),
        i <= b.len(),
        forall|j: int| 0 <= j < i ==> a[j] == b[j],
    ensures
        text_le(a, b) == text_le(a.skip(i), b.skip(i)),
    decreases i,
{
    if i == 0 {
        assert(a.skip(0) =~= a);
        assert(b.skip(0) =~= b);
    } else {
        assert(a[0] == b[0]);
        assert forall|j: int| 0 <= j < i - 1 implies a.skip(1)[j] == b.skip(1)[j] by {
            assert(a[j + 1] == b[j + 1]);
        }
        lemma_le_from(a.skip(1), b.skip(1), i - 1);
        assert(a.skip(1).skip(i - 1) =~= a.skip(i));
        assert(b.skip(1).skip(i - 1) =~= b.skip(i));
    }
}

/// Compares two texts; see [`text_le`].
fn at_most(a: &str, b: &str) -> (r: bool)
    ensures
        r == text_le(a@, b@),
{
    let x = text::chars_of(a);
    let y = text::chars_of(b);
    let mut i: usize = 0;
    while i < x.len() && i < y.len()
        invariant
            x@ == a@,
            y@ == b@,
            i <= x@.len(),
            i <= y@.len(),
            forall|j: int| 0 <= j < i ==> a@[j] == b@[j],
        decreases x@.len() - i,
    {
        if x[i] != y[i] {
            proof {
                lemma_le_from(a@, b@, i as int);
                assert(a@.skip(i as int)[0] == a@[i as int]);
                assert(b@.skip(i as int)[0] == b@[i as int]);
            }
            return x[i] < y[i];
        }
        i += 1;
    }
    proof {
        lemma_le_from(a@, b@, i as int);
    }
    i == x.len()
}

proof fn lemma_insert_in_order(s: Seq<Seq<char>>, t: Seq<char>, j: int)
    requires
        in_order(s),
        0 <= j <= s.len(),
        j > 0 ==> text_le(s[j - 1], t),
        j < s.len() ==> text_le(t, s[j]),
    ensures
        in_order(s.insert(j, t)),
{
    let g = s.insert(j, t);
    assert forall|a: int, b: int| 0 <= a < b < g.len() implies text_le(
        #[trigger] g[a],
        #[trigger] g[b],
    ) by {
        if a == j {
            assert(g[b] == s[b - 1]);
            if b - 1 > j {
                assert(text_le(s[j], s[b - 1]));
                text_le_is_transitive(t, s[j], s[b - 1]);
            }
        } else if b == j {
            assert(g[a] == s[a]);
            if a < j - 1 {
                assert(text_le(s[a], s[j - 1]));
                text_le_is_transitive(s[a], s[j - 1], t);
            }
        } else {
            let x = if a < j {
                a
            } else {
                a - 1
            };
            let y = if b < j {
                b
            } else {
                b - 1
            };
            assert(text_le(s[x], s[y]));
        }
    }
}

/// Puts strings in order.
fn sort_strings(v: Vec<String>) -> (r: Vec<String>)
    ensures
        in_order(text::texts(r@)),
        text::texts(r@).to_multiset() == text::texts(v@).to_multiset(),
{
    let ghost all = text::texts(v@);
    let mut out: Vec<String> = Vec::new();
    proof {
        assert(text::texts(out@) =~= all.take(0));
    }
    for i in 0..v.len()
        invariant
            all == text::texts(v@),
            in_order(text::texts(out@)),
            text::texts(out@).to_multiset() == all.take(i as int).to_multiset(),
    {
        let ghost before = text::texts(out@);
        let ghost t = all[i as int];
        let mut j: usize = out.len();
        while j > 0 && !at_most(out[j - 1].as_str(), v[i].as_str())
            invariant
                j <= out@.len(),
                i < v@.len(),
                t == v@[i as int]@,
                before == text::texts(out@),
                j < out@.len() ==> text_le(t, before[j as int]),
            decreases j,
        {
            proof {
                text_le_is_total(before[j - 1], t);
            }
            j -= 1;
        }
        let s = v[i].clone();
        out.insert(j, s);
        proof {
            broadcast use vstd::seq_lib::group_to_multiset_ensures;

            lemma_insert_in_order(before, t, j as int);
            assert(text::texts(out@) =~= before.insert(j as int, t));
            let grown = before.insert(j as int, t);
            assert(grown.remove(j as int) =~= before);
            assert(grown[j as int] == t);
            assert(grown.contains(t));
            assert(grown.to_multiset() =~= before.to_multiset().insert(t));
            assert(all.take(i + 1) =~= all.take(i as int).push(t));
        }
    }
    assert(all.take(v@.len() as int) =~= all);
    out
}

// ------------------------------------------------------------------ the difference

/// The names and values that a list of pairs holds.
pub open spec fn pairs(v: Seq<(String, String)>) -> Seq<(Seq<char>, Seq<char>)> {
    Seq::new(v.len(), |i: int| (v[i].0@, v[i].1@))
}

/// Whether a variable is set.
pub open spec fn is_set(env: Seq<(Seq<char>, Seq<char>)>, name: Seq<char>) -> bool {
    exists|i: int| 0 <= i < env.len() && (#[trigger] env[i]).0 == name
}

/// The value of a variable: that of the last pair with its name.
pub open spec fn value_of(env: Seq<(Seq<char>, Seq<char>)>, name: Seq<char>) -> Option<Seq<char>>
    decreases env.len(),
{
    if env.len() == 0 {
        None
    } else if env.last().0 == name {
        Some(env.last().1)
    } else {
        value_of(env.drop_last(), name)
    }
}

/// What is said of a variable of the process: `~` when the shell has another value, `+` when
/// the shell does not have it.
pub open spec fn process_line(
    ours: Seq<(Seq<char>, Seq<char>)>,
    kv: (Seq<char>, Seq<char>),
) -> Option<Seq<char>> {
    match value_of(ours, kv.0) {
        Some(o) => if o != kv.1 {
            Some("~ "@ + kv.0 + ": proc="@ + kv.1 + " shell="@ + o)
        } else {
            None
        },
        None => Some("+ "@ + kv.0 + "="@ + kv.1),
    }
}

/// What is said of the variables of the shell that the process does not have: `-` and the
/// name, once for each.
pub open spec fn missing_lines(
    proc_env: Seq<(Seq<char>, Seq<char>)>,
    ours: Seq<(Seq<char>, Seq<char>)>,
) -> Seq<Seq<char>>
    decreases ours.len(),
{
    if ours.len() == 0 {
        Seq::empty()
    } else {
        let before = missing_lines(proc_env, ours.drop_last());
        let name = ours.last().0;
        if is_set(proc_env, name) || is_set(ours.drop_last(), name) {
            before
        } else {
            before.push("- "@ + name + " (not inherited)"@)
        }
    }
}

/// All that is said of the difference between two environments, in no particular order.
pub open spec fn diff_lines(
    proc_env: Seq<(Seq<char>, Seq<char>)>,
    ours: Seq<(Seq<char>, Seq<char>)>,
) -> Seq<Seq<char>> {
    split::filter_map(proc_env, |kv: (Seq<char>, Seq<char>)| process_line(ours, kv))
        + missing_lines(proc_env, ours)
}

proof fn lemma_value_is_set(env: Seq<(Seq<char>, Seq<char>)>, name: Seq<char>)
    ensures
        value_of(env, name) is Some <==> is_set(env, name),
    decreases env.len(),
{
    if env.len() > 0 {
        let rest = env.drop_last();
        lemma_value_is_set(rest, name);
        if env.last().0 == name {
            assert(env[env.len() - 1].0 == name);
        } else if is_set(env, name) {
            let i = choose|i: int| 0 <= i < env.len() && (#[trigger] env[i]).0 == name;
            assert(rest[i].0 == name);
        } else if is_set(rest, name) {
            let i = choose|i: int| 0 <= i < rest.len() && (#[trigger] rest[i]).0 == name;
            assert(env[i].0 == name);
        }
    }
}

proof fn lemma_filter_map_empty(
    s: Seq<(Seq<char>, Seq<char>)>,
    f: spec_fn((Seq<char>, Seq<char>)) -> Option<Seq<char>>,
)
    ensures
        split::filter_map(s, f).len() == 0 <==> forall|i: int|
            0 <= i < s.len() ==> f(#[trigger] s[i]) is None,
    decreases s.len(),
{
    if s.len() > 0 {
        let rest = s.drop_last();
        lemma_filter_map_empty(rest, f);
        if split::filter_map(s, f).len() == 0 {
            assert forall|i: int| 0 <= i < s.len() implies f(#[trigger] s[i]) is None by {
                if i < rest.len() {
                    assert(f(rest[i]) is None);
                }
            }
        } else if forall|i: int| 0 <= i < s.len() ==> f(#[trigger] s[i]) is None {
            assert forall|i: int| 0 <= i < rest.len() implies f(#[trigger] rest[i]) is None by {
                assert(f(s[i]) is None);
            }
            assert(f(s[s.len() - 1]) is None);
        }
    }
}

proof fn lemma_missing_empty(
    proc_env: Seq<(Seq<char>, Seq<char>)>,
    ours: Seq<(Seq<char>, Seq<char>)>,
)
    ensures
        missing_lines(proc_env, ours).len() == 0 <==> forall|i: int|
            0 <= i < ours.len() ==> is_set(proc_env, (#[trigger] ours[i]).0),
    decreases ours.len(),
{
    if ours.len() > 0 {
        let rest = ours.drop_last();
        let name = ours.last().0;
        lemma_missing_empty(proc_env, rest);
        if missing_lines(proc_env, ours).len() == 0 {
            assert forall|i: int| 0 <= i < ours.len() implies is_set(
                proc_env,
                (#[trigger] ours[i]).0,
            ) by {
                if i < rest.len() {
                    assert(is_set(proc_env, rest[i].0));
                } else if !is_set(proc_env, name) {
                    let k = choose|k: int| 0 <= k < rest.len() && (#[trigger] rest[k]).0 == name;
                    assert(is_set(proc_env, rest[k].0));
                }
            }
        } else if forall|i: int|
            0 <= i < ours.len() ==> is_set(proc_env, (#[trigger] ours[i]).0) {
            assert forall|i: int| 0 <= i < rest.len() implies is_set(
                proc_env,
                (#[trigger] rest[i]).0,
            ) by {
                assert(is_set(proc_env, ours[i].0));
            }
            assert(is_set(proc_env, ours[ours.len() - 1].0));
        }
    }
}

/// Nothing is said exactly when the two environments agree: every variable of the process has
/// the same value in the shell, and the process has every variable of the shell.
pub proof fn no_difference_means_agreement(
    proc_env: Seq<(Seq<char>, Seq<char>)>,
    ours: Seq<(Seq<char>, Seq<char>)>,
)
    ensures
        diff_lines(proc_env, ours).len() == 0 <==> {
            &&& forall|i: int|
                0 <= i < proc_env.len() ==> value_of(ours, (#[trigger] proc_env[i]).0) == Some(
                    proc_env[i].1,
                )
            &&& forall|i: int|
                0 <= i < ours.len() ==> is_set(proc_env, (#[trigger] ours[i]).0)
        },
{
    let f = |kv: (Seq<char>, Seq<char>)| process_line(ours, kv);
    lemma_filter_map_empty(proc_env, f);
    lemma_missing_empty(proc_env, ours);
    assert(forall|i: int| #![trigger proc_env[i]]
        0 <= i < proc_env.len() ==> (f(proc_env[i]) is None <==> value_of(ours, proc_env[i].0)
            == Some(proc_env[i].1)));
}

fn find_value<'a>(env: &'a Vec<(String, String)>, name: &String) -> (r: Option<&'a String>)
    ensures
        match r {
            Some(v) => value_of(pairs(env@), name@) == Some(v@),
            None => value_of(pairs(env@), name@) is None,
        },
{
    let ghost all = pairs(env@);
    let mut i: usize = env.len();
    assert(all.take(i as int) =~= all);
    while i > 0
        invariant
            i <= env@.len(),
            all == pairs(env@),
            value_of(all, name@) == value_of(all.take(i as int), name@),
        decreases i,
    {
        proof {
            assert(all.take(i as int).drop_last() =~= all.take(i - 1));
            assert(all.take(i as int).last() == all[i - 1]);
        }
        if env[i - 1].0 == *name {
            return Some(&env[i - 1].1);
        }
        i -= 1;
    }
    None
}

fn set_before(env: &Vec<(String, String)>, n: usize, name: &String) -> (r: bool)
    requires
        n <= env@.len(),
    ensures
        r == is_set(pairs(env@).take(n as int), name@),
{
    let ghost first = pairs(env@).take(n as int);
    for i in 0..n
        invariant
            n <= env@.len(),
            first == pairs(env@).take(n as int),
            forall|j: int| 0 <= j < i ==> (#[trigger] first[j]).0 != name@,
    {
        assert(first[i as int] == (env@[i as int].0@, env@[i as int].1@));
        if env[i].0 == *name {
            return true;
        }
    }
    false
}

/// Pure diff: `~` differs, `+` only in process, `-` not inherited; in order.
pub fn env_diff(proc_env: &Vec<(String, String)>, ours: &Vec<(String, String)>) -> (r: Vec<String>)
    ensures
        in_order(text::texts(r@)),
        text::texts(r@).to_multiset() == diff_lines(pairs(proc_env@), pairs(ours@)).to_multiset(),
{
    let ghost pe = pairs(proc_env@);
    let ghost oe = pairs(ours@);
    let ghost f = |kv: (Seq<char>, Seq<char>)| process_line(oe, kv);
    let mut out: Vec<String> = Vec::new();
    proof {
        assert(pe.take(0) =~= Seq::<(Seq<char>, Seq<char>)>::empty());
        assert(text::texts(out@) =~= Seq::<Seq<char>>::empty());
    }
    for i in 0..proc_env.len()
        invariant
            pe == pairs(proc_env@),
            oe == pairs(ours@),
            f == (|kv: (Seq<char>, Seq<char>)| process_line(oe, kv)),
            text::texts(out@) == split::filter_map(pe.take(i as int), f),
    {
        let ghost before = text::texts(out@);
        proof {
            assert(pe.take(i + 1).drop_last() =~= pe.take(i as int));
            assert(pe.take(i + 1).last() == pe[i as int]);
        }
        let k = &proc_env[i].0;
        let v = &proc_env[i].1;
        match find_value(ours, k) {
            Some(o) => if *o != *v {
                let mut line = "~ ".to_owned();
                push_text(&mut line, k.as_str());
                push_text(&mut line, ": proc=");
                push_text(&mut line, v.as_str());
                push_text(&mut line, " shell=");
                push_text(&mut line, o.as_str());
                let ghost t = line@;
                out.push(line);
                assert(text::texts(out@) =~= before.push(t));
            },
            None => {
                let mut line = "+ ".to_owned();
                push_text(&mut line, k.as_str());
                push_text(&mut line, "=");
                push_text(&mut line, v.as_str());
                let ghost t = line@;
                out.push(line);
                assert(text::texts(out@) =~= before.push(t));
            },
        }
    }
    let ghost first = text::texts(out@);
    proof {
        assert(pe.take(proc_env@.len() as int) =~= pe);
        assert(oe.take(0) =~= Seq::<(Seq<char>, Seq<char>)>::empty());
        assert(first + missing_lines(pe, oe.take(0)) =~= first);
    }
    for i in 0..ours.len()
        invariant
            pe == pairs(proc_env@),
            oe == pairs(ours@),
            text::texts(out@) == first + missing_lines(pe, oe.take(i as int)),
    {
        let ghost before = text::texts(out@);
        proof {
            assert(oe.take(i + 1).drop_last() =~= oe.take(i as int));
            assert(oe.take(i + 1).last() == oe[i as int]);
            assert(pe.take(proc_env@.len() as int) =~= pe);
        }
        let k = &ours[i].0;
        if !set_before(proc_env, proc_env.len(), k) && !set_before(ours, i, k) {
            let mut line = "- ".to_owned();
            push_text(&mut line, k.as_str());
            push_text(&mut line, " (not inherited)");
            let ghost t = line@;
            out.push(line);
            proof {
                assert(text::texts(out@) =~= before.push(t));
                assert(text::texts(out@) =~= first + missing_lines(pe, oe.take(i as int)).push(t));
            }
        }
    }
    assert(oe.take(ours@.len() as int) =~= oe);
    sort_strings(out)
}

/// The variables in a process's environment: each entry cut at its first `=`, those without
/// one left out.
pub open spec fn environ_pairs(environ: Seq<Seq<char>>) -> Seq<(Seq<char>, Seq<char>)> {
    split::filter_map(environ, |kv: Seq<char>| split::split_once(kv, "="@))
}

/// Reads a process's environment; see [`environ_pairs`].
pub fn parse_environ(environ: &Vec<String>) -> (r: Vec<(String, String)>)
    ensures
        pairs(r@) == environ_pairs(text::texts(environ@)),
{
    let ghost all = text::texts(environ@);
    let ghost f = |kv: Seq<char>| split::split_once(kv, "="@);
    let eq = chars_of("=");
    let mut out: Vec<(String, String)> = Vec::new();
    proof {
        reveal_strlit("=");
        assert(all.take(0) =~= Seq::<Seq<char>>::empty());
        assert(pairs(out@) =~= Seq::<(Seq<char>, Seq<char>)>::empty());
    }
    for i in 0..environ.len()
        invariant
            all == text::texts(environ@),
            f == (|kv: Seq<char>| split::split_once(kv, "="@)),
            eq@ == "="@,
            eq@.len() == 1,
            pairs(out@) == split::filter_map(all.take(i as int), f),
    {
        let ghost before = pairs(out@);
        proof {
            assert(all.take(i + 1).drop_last() =~= all.take(i as int));
            assert(all.take(i + 1).last() == environ@[i as int]@);
        }
        let kv = chars_of(environ[i].as_str());
        let n = kv.len();
        if let Some(p) = position(kv.as_slice(), eq.as_slice()) {
            let k = copy_range(kv.as_slice(), 0, p);
            let v = copy_range(kv.as_slice(), p + 1, n);
            proof {
                assert(k@ =~= kv@.take(p as int));
                assert(v@ =~= kv@.skip(p + 1));
            }
            out.push((string_of(k.as_slice()), string_of(v.as_slice())));
            assert(pairs(out@) =~= before.push((k@, v@)));
        }
    }
    assert(all.take(environ@.len() as int) =~= all);
    out
}

} // verus!
