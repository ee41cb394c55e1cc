//! Cutting a text into lines, fields and words.
use vstd::prelude::*;
use crate::text;
use crate::text::{chars_of, push_text};

verus! {

/// Whether a character is white space under Unicode's property `White_Space`.
pub open spec fn is_space(c: char) -> bool {
    ||| '\u{9}' <= c <= '\u{d}'
    ||| c == '\u{20}'
    ||| c == '\u{85}'
    ||| c == '\u{a0}'
    ||| c == '\u{1680}'
    ||| '\u{2000}' <= c <= '\u{200a}'
    ||| c == '\u{2028}'
    ||| c == '\u{2029}'
    ||| c == '\u{202f}'
    ||| c == '\u{205f}'
    ||| c == '\u{3000}'
}

/// Tells white space from other characters.
pub fn space(c: char) -> (r: bool)
    ensures
        r == is_space(c),
{
    ('\u{9}' <= c && c <= '\u{d}') || c == '\u{20}' || c == '\u{85}' || c == '\u{a0}' || c
        == '\u{1680}' || ('\u{2000}' <= c && c <= '\u{200a}') || c == '\u{2028}' || c == '\u{2029}'
        || c == '\u{202f}' || c == '\u{205f}' || c == '\u{3000}'
}

/// The pieces of a text between the places where a separator stands: one more than there are
/// separators.
pub open spec fn split(s: Seq<char>, sep: char) -> Seq<Seq<char>>
    decreases s.len(),
{
    if s.len() == 0 {
        seq![Seq::<char>::empty()]
    } else {
        let before = split(s.drop_last(), sep);
        if s.last() == sep {
            before.push(Seq::<char>::empty())
        } else {
            before.drop_last().push(before.last().push(s.last()))
        }
    }
}

/// The longest runs of characters that are no white space.
pub open spec fn words(s: Seq<char>) -> Seq<Seq<char>>
    decreases s.len(),
{
    if s.len() == 0 {
        Seq::empty()
    } else {
        let before = words(s.drop_last());
        if is_space(s.last()) {
            before
        } else if s.len() == 1 || is_space(s[s.len() - 2]) {
            before.push(seq![s.last()])
        } else {
            before.drop_last().push(before.last().push(s.last()))
        }
    }
}

/// A line without the carriage return at its end.
pub open spec fn strip_return(s: Seq<char>) -> Seq<char> {
    if s.len() > 0 && s.last() == '\r' {
        s.drop_last()
    } else {
        s
    }
}

/// The lines of a text. A line ends with a line feed, or with a carriage return and a line
/// feed; what follows the last of these is a line too, as it stands, unless it is empty.
pub open spec fn lines(s: Seq<char>) -> Seq<Seq<char>> {
    let parts = split(s, '\n');
    let ended = Seq::new((parts.len() - 1) as nat, |i: int| strip_return(parts[i]));
    if parts.last().len() == 0 {
        ended
    } else {
        ended.push(parts.last())
    }
}

/// The text without the white space at its end.
pub open spec fn trim_end(s: Seq<char>) -> Seq<char>
    decreases s.len(),
{
    if s.len() > 0 && is_space(s.last()) {
        trim_end(s.drop_last())
    } else {
        s
    }
}

/// The text without the white space at its start.
pub open spec fn trim_start(s: Seq<char>) -> Seq<char>
    decreases s.len(),
{
    if s.len() > 0 && is_space(s[0]) {
        trim_start(s.skip(1))
    } else {
        s
    }
}

/// The text without the white space at its two ends.
pub open spec fn trim(s: Seq<char>) -> Seq<char> {
    trim_end(trim_start(s))
}

/// The piece after the last separator, or the whole text when there is none.
pub open spec fn after_last(s: Seq<char>, sep: char) -> Seq<char> {
    split(s, sep).last()
}

/// Whether one text begins with another.
pub open spec fn begins(s: Seq<char>, p: Seq<char>) -> bool {
    p.len() <= s.len() && s.take(p.len() as int) == p
}

/// Whether one text ends with another.
pub open spec fn ends(s: Seq<char>, p: Seq<char>) -> bool {
    p.len() <= s.len() && s.skip(s.len() - p.len()) == p
}

/// Whether one text stands at a position of another.
pub open spec fn stands_at(s: Seq<char>, i: int, p: Seq<char>) -> bool {
    0 <= i && i + p.len() <= s.len() && s.subrange(i, i + p.len()) == p
}

/// Whether one text stands somewhere in another.
pub open spec fn contains(s: Seq<char>, p: Seq<char>) -> bool {
    exists|i: int| stands_at(s, i, p)
}

/// The first position, from `from` on, at which a text stands in another.
pub open spec fn find(s: Seq<char>, p: Seq<char>, from: int) -> Option<int>
    decreases s.len() + 1 - from,
{
    if from < 0 || from + p.len() > s.len() {
        None
    } else if stands_at(s, from, p) {
        Some(from)
    } else {
        find(s, p, from + 1)
    }
}

/// What stands before the first occurrence of `p`, or the whole text when there is none.
pub open spec fn before(s: Seq<char>, p: Seq<char>) -> Seq<char> {
    match find(s, p, 0) {
        Some(i) => s.take(i),
        None => s,
    }
}

/// What stands before the first occurrence of `p` and what stands after it.
pub open spec fn split_once(s: Seq<char>, p: Seq<char>) -> Option<(Seq<char>, Seq<char>)> {
    match find(s, p, 0) {
        Some(i) => Some((s.take(i), s.skip(i + p.len()))),
        None => None,
    }
}

/// What is left of a text once it is cut after a given beginning.
pub open spec fn strip_prefix(s: Seq<char>, p: Seq<char>) -> Option<Seq<char>> {
    if begins(s, p) {
        Some(s.skip(p.len() as int))
    } else {
        None
    }
}

/// What is left of a text once a given end is cut off.
pub open spec fn strip_suffix(s: Seq<char>, p: Seq<char>) -> Option<Seq<char>> {
    if ends(s, p) {
        Some(s.take(s.len() - p.len()))
    } else {
        None
    }
}

/// Puts texts one after the other with a separator between them.
pub open spec fn join(parts: Seq<Seq<char>>, sep: Seq<char>) -> Seq<char>
    decreases parts.len(),
{
    if parts.len() == 0 {
        Seq::empty()
    } else if parts.len() == 1 {
        parts[0]
    } else {
        join(parts.drop_last(), sep) + sep + parts.last()
    }
}

/// What a partial function makes of the items of a sequence, in order, those left out for
/// which it is undefined.
pub open spec fn filter_map<A, T>(s: Seq<A>, f: spec_fn(A) -> Option<T>) -> Seq<T>
    decreases s.len(),
{
    if s.len() == 0 {
        Seq::empty()
    } else {
        let before = filter_map(s.drop_last(), f);
        match f(s.last()) {
            Some(t) => before.push(t),
            None => before,
        }
    }
}

/// All items of a sequence but the first.
pub open spec fn rest<A>(s: Seq<A>) -> Seq<A> {
    if s.len() == 0 {
        s
    } else {
        s.skip(1)
    }
}

/// There is always at least one piece.
pub proof fn split_is_nonempty(s: Seq<char>, sep: char)
    ensures
        split(s, sep).len() >= 1,
    decreases s.len(),
{
    if s.len() > 0 {
        split_is_nonempty(s.drop_last(), sep);
    }
}

/// Splitting loses nothing: the pieces joined by the separator are the text again, and no
/// piece holds the separator.
pub proof fn split_then_join(s: Seq<char>, sep: char)
    ensures
        join(split(s, sep), seq![sep]) == s,
        forall|i: int| 0 <= i < split(s, sep).len() ==> !(#[trigger] split(s, sep)[i]).contains(sep),
    decreases s.len(),
{
    let parts = split(s, sep);
    if s.len() == 0 {
        assert(parts =~= seq![Seq::<char>::empty()]);
    } else {
        let rest = s.drop_last();
        let earlier = split(rest, sep);
        split_is_nonempty(rest, sep);
        split_then_join(rest, sep);
        assert(s =~= rest.push(s.last()));
        if s.last() == sep {
            assert(parts.drop_last() =~= earlier);
            assert(join(parts, seq![sep]) =~= join(earlier, seq![sep]) + seq![sep]);
        } else {
            let grown = earlier.last().push(s.last());
            assert(parts.drop_last() =~= earlier.drop_last());
            assert(join(parts, seq![sep]) =~= join(earlier, seq![sep]).push(s.last()));
            assert forall|i: int| 0 <= i < parts.len() implies !(#[trigger] parts[i]).contains(
                sep,
            ) by {
                if i == parts.len() - 1 {
                    assert(parts[i] == grown);
                    assert(!earlier[earlier.len() - 1].contains(sep));
                    if grown.contains(sep) {
                        let k = choose|k: int| 0 <= k < grown.len() && grown[k] == sep;
                        assert(earlier.last()[k] == sep);
                    }
                } else {
                    assert(parts[i] == earlier[i]);
                }
            }
        }
    }
}

/// A text without the separator is a piece of its own.
pub proof fn lemma_one_piece(s: Seq<char>, sep: char)
    requires
        !s.contains(sep),
    ensures
        split(s, sep) == seq![s],
    decreases s.len(),
{
    if s.len() == 0 {
        assert(s =~= Seq::<char>::empty());
    } else {
        let rest = s.drop_last();
        assert forall|i: int| 0 <= i < rest.len() implies rest[i] != sep by {
            assert(s[i] != sep);
        }
        lemma_one_piece(rest, sep);
        assert(s[s.len() - 1] != sep);
        assert(rest.push(s.last()) =~= s);
        assert(split(s, sep) =~= seq![s]);
    }
}

/// A separator and a text without it add one piece.
pub proof fn lemma_one_more_piece(a: Seq<char>, b: Seq<char>, sep: char)
    requires
        !b.contains(sep),
    ensures
        split(a + seq![sep] + b, sep) == split(a, sep).push(b),
    decreases b.len(),
{
    let s = a + seq![sep] + b;
    if b.len() == 0 {
        assert(s.drop_last() =~= a);
        assert(b =~= Seq::<char>::empty());
    } else {
        let rest = b.drop_last();
        assert forall|i: int| 0 <= i < rest.len() implies rest[i] != sep by {
            assert(b[i] != sep);
        }
        lemma_one_more_piece(a, rest, sep);
        assert(b[b.len() - 1] != sep);
        assert(s.drop_last() =~= a + seq![sep] + rest);
        assert(rest.push(b.last()) =~= b);
        assert(split(s, sep) =~= split(a, sep).push(b));
    }
}

/// Joining loses nothing: texts that do not hold the separator, joined by it, are cut into the
/// same texts again.
pub proof fn join_then_split(parts: Seq<Seq<char>>, sep: char)
    requires
        parts.len() > 0,
        forall|i: int| 0 <= i < parts.len() ==> !(#[trigger] parts[i]).contains(sep),
    ensures
        split(join(parts, seq![sep]), sep) == parts,
    decreases parts.len(),
{
    assert(!parts[parts.len() - 1].contains(sep));
    if parts.len() == 1 {
        lemma_one_piece(parts[0], sep);
        assert(parts =~= seq![parts[0]]);
    } else {
        let rest = parts.drop_last();
        assert forall|i: int| 0 <= i < rest.len() implies !(#[trigger] rest[i]).contains(sep) by {
            assert(rest[i] == parts[i]);
        }
        join_then_split(rest, sep);
        lemma_one_more_piece(join(rest, seq![sep]), parts.last(), sep);
        assert(rest.push(parts.last()) =~= parts);
    }
}

/// A text without white space at its ends is left alone.
pub proof fn solid_ends_are_kept(s: Seq<char>)
    requires
        s.len() > 0,
        !is_space(s[0]),
        !is_space(s.last()),
    ensures
        trim(s) == s,
{
}

/// No word is empty and no word holds white space.
pub proof fn words_are_solid(s: Seq<char>)
    ensures
        s.len() > 0 && !is_space(s.last()) ==> words(s).len() > 0,
        forall|i: int, j: int|
            0 <= i < words(s).len() && 0 <= j < words(s)[i].len() ==> !is_space(
                #[trigger] words(s)[i][j],
            ),
        forall|i: int| 0 <= i < words(s).len() ==> (#[trigger] words(s)[i]).len() > 0,
    decreases s.len(),
{
    if s.len() > 0 {
        let rest = s.drop_last();
        words_are_solid(rest);
        if !is_space(s.last()) && s.len() > 1 && !is_space(s[s.len() - 2]) {
            assert(rest.last() == s[s.len() - 2]);
            let earlier = words(rest);
            assert forall|i: int, j: int|
                0 <= i < words(s).len() && 0 <= j < words(s)[i].len() implies !is_space(
                #[trigger] words(s)[i][j],
            ) by {
                if i == words(s).len() - 1 && j < earlier.last().len() {
                    assert(words(s)[i][j] == earlier[i][j]);
                }
            }
        }
    }
}

// ------------------------------------------------------------------ execution

/// Cuts a text at a separator; see [`split`].
pub fn split_at(s: &[char], sep: char) -> (r: Vec<Vec<char>>)
    ensures
        text::views(r@) == split(s@, sep),
        r@.len() >= 1,
{
    let mut out: Vec<Vec<char>> = Vec::new();
    let mut cur: Vec<char> = Vec::new();
    proof {
        assert(s@.take(0) =~= Seq::<char>::empty());
        assert(text::views(out@).push(cur@) =~= seq![Seq::<char>::empty()]);
    }
    for i in 0..s.len()
        invariant
            text::views(out@).push(cur@) == split(s@.take(i as int), sep),
    {
        let ghost before_views = text::views(out@);
        let ghost before_cur = cur@;
        proof {
            assert(s@.take(i + 1).drop_last() =~= s@.take(i as int));
            assert(before_views.push(before_cur).drop_last() =~= before_views);
        }
        let c = s[i];
        if c == sep {
            out.push(cur);
            cur = Vec::new();
            assert(text::views(out@) =~= before_views.push(before_cur));
        } else {
            cur.push(c);
        }
    }
    out.push(cur);
    proof {
        assert(s@.take(s@.len() as int) =~= s@);
        split_is_nonempty(s@, sep);
        assert(text::views(out@) =~= split(s@, sep));
    }
    out
}

/// The words of a text; see [`words`].
pub fn split_words(s: &[char]) -> (r: Vec<Vec<char>>)
    ensures
        text::views(r@) == words(s@),
{
    let mut out: Vec<Vec<char>> = Vec::new();
    let mut cur: Vec<char> = Vec::new();
    proof {
        assert(text::views(out@) =~= words(s@.take(0)));
    }
    for i in 0..s.len()
        invariant
            cur@.len() == 0 ==> text::views(out@) == words(s@.take(i as int)) && (i == 0 || is_space(
                s@[i - 1],
            )),
            cur@.len() > 0 ==> text::views(out@).push(cur@) == words(s@.take(i as int)) && i > 0
                && !is_space(s@[i - 1]),
    {
        let ghost before_views = text::views(out@);
        let ghost before_cur = cur@;
        let ghost now = s@.take(i + 1);
        proof {
            assert(now.drop_last() =~= s@.take(i as int));
            assert(now.last() == s@[i as int]);
            assert(i > 0 ==> now[now.len() - 2] == s@[i - 1]);
            assert(before_views.push(before_cur).drop_last() =~= before_views);
        }
        let c = s[i];
        if space(c) {
            if cur.len() > 0 {
                out.push(cur);
                cur = Vec::new();
                assert(text::views(out@) =~= before_views.push(before_cur));
            }
        } else {
            cur.push(c);
            proof {
                if before_cur.len() == 0 {
                    assert(cur@ =~= seq![c]);
                }
            }
        }
    }
    proof {
        assert(s@.take(s@.len() as int) =~= s@);
    }
    if cur.len() > 0 {
        let ghost before_views = text::views(out@);
        let ghost before_cur = cur@;
        out.push(cur);
        assert(text::views(out@) =~= before_views.push(before_cur));
    }
    out
}

/// The lines of a text; see [`lines`].
pub fn split_lines(s: &[char]) -> (r: Vec<Vec<char>>)
    ensures
        text::views(r@) == lines(s@),
{
    let mut parts = split_at(s, '\n');
    let ghost all = text::views(parts@);
    let ghost ended = Seq::new((all.len() - 1) as nat, |i: int| strip_return(all[i]));
    let last = match parts.pop() {
        Some(p) => p,
        None => Vec::new(),
    };
    assert(last@ == all.last());
    let mut out: Vec<Vec<char>> = Vec::new();
    let n = parts.len();
    assert(text::views(out@) =~= ended.take(0));
    for i in 0..n
        invariant
            n == parts@.len(),
            n == all.len() - 1,
            ended == Seq::new((all.len() - 1) as nat, |i: int| strip_return(all[i])),
            forall|j: int| 0 <= j < n ==> (#[trigger] parts@[j])@ == all[j],
            text::views(out@) == ended.take(i as int),
    {
        let ghost earlier = text::views(out@);
        let mut line = parts[i].clone();
        proof {
            assert(line@ =~= all[i as int]);
        }
        if line.len() > 0 && line[line.len() - 1] == '\r' {
            line.pop();
            assert(line@ =~= all[i as int].drop_last());
        }
        let ghost text = line@;
        out.push(line);
        proof {
            assert(text::views(out@) =~= earlier.push(text));
            assert(ended.take(i + 1) =~= ended.take(i as int).push(ended[i as int]));
        }
    }
    assert(ended.take(n as int) =~= ended);
    if last.len() > 0 {
        let ghost earlier = text::views(out@);
        out.push(last);
        assert(text::views(out@) =~= earlier.push(all.last()));
    }
    out
}

proof fn lemma_trim_start(s: Seq<char>, i: int)
    requires
        0 <= i <= s.len(),
        forall|j: int| 0 <= j < i ==> is_space(#[trigger] s[j]),
    ensures
        trim_start(s) == trim_start(s.skip(i)),
    decreases i,
{
    if i == 0 {
        assert(s.skip(0) =~= s);
    } else {
        assert(is_space(s[0]));
        assert forall|j: int| 0 <= j < i - 1 implies is_space(#[trigger] s.skip(1)[j]) by {
            assert(is_space(s[j + 1]));
        }
        lemma_trim_start(s.skip(1), i - 1);
        assert(s.skip(1).skip(i - 1) =~= s.skip(i));
    }
}

/// A text without the white space at its two ends.
pub fn trimmed(s: &[char]) -> (r: Vec<char>)
    ensures
        r@ == trim(s@),
{
    let mut i: usize = 0;
    while i < s.len() && space(s[i])
        invariant
            i <= s@.len(),
            forall|j: int| 0 <= j < i ==> is_space(#[trigger] s@[j]),
        decreases s@.len() - i,
    {
        i += 1;
    }
    proof {
        lemma_trim_start(s@, i as int);
        assert(i < s@.len() ==> s@.skip(i as int)[0] == s@[i as int]);
        assert(trim_start(s@) == s@.skip(i as int));
    }
    let mut n: usize = s.len();
    assert(s@.subrange(i as int, n as int) =~= s@.skip(i as int));
    while n > i && space(s[n - 1])
        invariant
            i <= n <= s@.len(),
            trim_end(s@.subrange(i as int, n as int)) == trim(s@),
        decreases n,
    {
        proof {
            assert(s@.subrange(i as int, n as int).drop_last() =~= s@.subrange(
                i as int,
                n - 1,
            ));
        }
        n -= 1;
    }
    proof {
        let t = s@.subrange(i as int, n as int);
        assert(t.len() > 0 ==> t.last() == s@[n - 1]);
        assert(trim_end(t) == t);
    }
    copy_range(s, i, n)
}

/// The characters from one position up to another.
pub fn copy_range(s: &[char], from: usize, to: usize) -> (r: Vec<char>)
    requires
        from <= to <= s@.len(),
    ensures
        r@ == s@.subrange(from as int, to as int),
{
    let mut out: Vec<char> = Vec::new();
    for i in from..to
        invariant
            from <= i <= to <= s@.len(),
            out@ == s@.subrange(from as int, i as int),
    {
        out.push(s[i]);
        assert(out@ =~= s@.subrange(from as int, i + 1));
    }
    out
}

/// Whether one text stands at a position of another.
pub fn at(s: &[char], i: usize, p: &[char]) -> (r: bool)
    ensures
        r == stands_at(s@, i as int, p@),
{
    if i > s.len() || p.len() > s.len() - i {
        return false;
    }
    let n = s.len();
    for k in 0..p.len()
        invariant
            n == s@.len(),
            i + p@.len() <= n,
            forall|j: int| 0 <= j < k ==> s@[i + j] == #[trigger] p@[j],
    {
        if s[i + k] != p[k] {
            assert(s@.subrange(i as int, i + p@.len())[k as int] == s@[i + k]);
            return false;
        }
    }
    assert(s@.subrange(i as int, i + p@.len()) =~= p@);
    true
}

/// The first position at which one text stands in another; see [`find`].
pub fn position(s: &[char], p: &[char]) -> (r: Option<usize>)
    ensures
        match r {
            Some(i) => find(s@, p@, 0) == Some(i as int) && i + p@.len() <= s@.len(),
            None => find(s@, p@, 0) is None,
        },
{
    if p.len() > s.len() {
        return None;
    }
    let mut i: usize = 0;
    let stop = s.len() - p.len();
    while i <= stop
        invariant
            stop == s@.len() - p@.len(),
            i <= stop + 1,
            find(s@, p@, 0) == find(s@, p@, i as int),
        decreases stop + 1 - i,
    {
        if at(s, i, p) {
            return Some(i);
        }
        if i == stop {
            assert(find(s@, p@, i + 1) is None);
            return None;
        }
        i += 1;
    }
    None
}

pub proof fn lemma_find(s: Seq<char>, p: Seq<char>, from: int)
    requires
        0 <= from,
    ensures
        find(s, p, from) is Some <==> exists|i: int| i >= from && stands_at(s, i, p),
        find(s, p, from) is Some ==> stands_at(s, find(s, p, from)->0, p),
    decreases s.len() + 1 - from,
{
    if from + p.len() > s.len() {
    } else if stands_at(s, from, p) {
    } else {
        lemma_find(s, p, from + 1);
        if exists|i: int| i >= from && stands_at(s, i, p) {
            let i = choose|i: int| i >= from && stands_at(s, i, p);
            assert(i >= from + 1 && stands_at(s, i, p));
        }
    }
}

/// Whether one text stands somewhere in another; see [`contains`].
pub fn has(s: &str, p: &str) -> (r: bool)
    ensures
        r == contains(s@, p@),
{
    let a = chars_of(s);
    let b = chars_of(p);
    proof {
        lemma_find(s@, p@, 0);
        if contains(s@, p@) {
            let i = choose|i: int| stands_at(s@, i, p@);
            assert(i >= 0 && stands_at(s@, i, p@));
        }
    }
    position(a.as_slice(), b.as_slice()).is_some()
}

/// Whether one text begins with another; see [`begins`].
pub fn starts_with(s: &[char], p: &str) -> (r: bool)
    ensures
        r == begins(s@, p@),
{
    let b = chars_of(p);
    proof {
        assert(p@.len() <= s@.len() ==> s@.subrange(0, p@.len() as int) =~= s@.take(
            p@.len() as int,
        ));
    }
    at(s, 0, b.as_slice())
}

/// Whether one text ends with another; see [`ends`].
pub fn ends_with(s: &[char], p: &str) -> (r: bool)
    ensures
        r == ends(s@, p@),
{
    let b = chars_of(p);
    if b.len() > s.len() {
        return false;
    }
    proof {
        let i = s@.len() - p@.len();
        assert(s@.subrange(i, i + p@.len()) =~= s@.skip(i));
    }
    at(s, s.len() - b.len(), b.as_slice())
}

/// The pieces joined by a separator; see [`join`].
pub fn join_strings(parts: &Vec<String>, sep: &str) -> (r: String)
    ensures
        r@ == join(text::texts(parts@), sep@),
{
    let mut out = String::new();
    let ghost all = text::texts(parts@);
    assert(all.take(0) =~= Seq::<Seq<char>>::empty());
    for i in 0..parts.len()
        invariant
            all == text::texts(parts@),
            out@ == join(all.take(i as int), sep@),
    {
        proof {
            assert(all.take(i + 1).drop_last() =~= all.take(i as int));
            assert(all.take(i + 1).last() == parts@[i as int]@);
        }
        if i == 0 {
            out = parts[i].clone();
        } else {
            push_text(&mut out, sep);
            push_text(&mut out, parts[i].as_str());
        }
    }
    assert(all.take(parts@.len() as int) =~= all);
    out
}

} // verus!
