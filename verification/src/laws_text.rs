//! What reading and writing texts does, over all texts.
use vstd::prelude::*;
use crate::env;
use crate::split;
use crate::text;

verus! {

// ------------------------------------------------------------------ lists

/// What a function gives for the elements of a list is listed in their order, each element for
/// which it gives something being there once. The result says which element each comes from.
pub proof fn what_is_given_is_listed<A, T>(s: Seq<A>, f: spec_fn(A) -> Option<T>) -> (at: Seq<int>)
    ensures
        at.len() == split::filter_map(s, f).len(),
        forall|k: int|
            #![trigger at[k]]
            #![trigger split::filter_map(s, f)[k]]
            0 <= k < at.len() ==> 0 <= at[k] < s.len() && f(s[at[k]]) == Some(
                split::filter_map(s, f)[k],
            ),
        forall|k: int, l: int| 0 <= k < l < at.len() ==> #[trigger] at[k] < #[trigger] at[l],
        forall|i: int|
            0 <= i < s.len() && (#[trigger] f(s[i])) is Some ==> at.contains(i)
                && split::filter_map(s, f).contains(f(s[i])->0),
    decreases s.len(),
{
    if s.len() == 0 {
        Seq::empty()
    } else {
        let rest = s.drop_last();
        let before = what_is_given_is_listed(rest, f);
        let listed = split::filter_map(rest, f);
        let all = split::filter_map(s, f);
        let at = if f(s.last()) is Some {
            before.push(s.len() - 1)
        } else {
            before
        };
        assert forall|k: int| 0 <= k < at.len() implies 0 <= #[trigger] at[k] < s.len() && f(
            s[at[k]],
        ) == Some(all[k]) by {
            if k < before.len() {
                assert(at[k] == before[k]);
                assert(rest[before[k]] == s[before[k]]);
                assert(all[k] == listed[k]);
            }
        }
        assert forall|i: int|
            0 <= i < s.len() && (#[trigger] f(s[i])) is Some implies at.contains(i) && all.contains(
            f(s[i])->0,
        ) by {
            if i < rest.len() {
                assert(rest[i] == s[i]);
                assert(f(rest[i]) is Some);
                let k = choose|k: int| 0 <= k < before.len() && before[k] == i;
                assert(at[k] == i);
                assert(f(s[at[k]]) == Some(all[k]));
            } else {
                assert(at[before.len() as int] == i);
                assert(all[before.len() as int] == f(s[i])->0);
            }
        }
        at
    }
}

// ------------------------------------------------------------------ numbers

/// A number written in decimal has digits only, and they read as that number.
pub proof fn decimals_are_digits(n: nat)
    ensures
        text::decimal(n).len() > 0,
        forall|i: int| 0 <= i < text::decimal(n).len() ==> '0' <= #[trigger] text::decimal(n)[i] <= '9',
        text::digits_value(text::decimal(n), 10) == Some(n),
    decreases n,
{
    let d = text::decimal(n);
    if n < 10 {
        assert(d.drop_last() =~= Seq::<char>::empty());
        assert(text::digits_value(d.drop_last(), 10) == Some(0nat));
        assert(text::digit_value(d.last(), 10) == Some(n));
    } else {
        decimals_are_digits(n / 10);
        assert(d.drop_last() =~= text::decimal(n / 10));
        assert(text::digit_value(d.last(), 10) == Some(n % 10));
        assert((n / 10) * 10 + n % 10 == n);
    }
}

/// A number written in decimal is read back as it was, as long as it fits.
pub proof fn decimals_read_back(n: nat, max: nat)
    ensures
        n <= max ==> text::parse_unsigned(text::decimal(n), 10, max) == Some(n),
        n > max ==> text::parse_unsigned(text::decimal(n), 10, max) is None,
{
    decimals_are_digits(n);
    assert('0' <= text::decimal(n)[0]);
}

/// A signed number is read back as it was.
pub proof fn signed_decimals_read_back(n: i32)
    ensures
        text::parse_i32_spec(text::signed_decimal(n as int)) == Some(n as int),
{
    let s = text::signed_decimal(n as int);
    if n < 0 {
        let d = text::decimal((-n) as nat);
        decimals_are_digits((-n) as nat);
        assert(s.skip(1) =~= d);
    } else {
        decimals_are_digits(n as nat);
        assert('0' <= text::decimal(n as nat)[0]);
    }
}

/// Different numbers are written differently.
pub proof fn decimals_differ(m: nat, n: nat)
    requires
        text::decimal(m) == text::decimal(n),
    ensures
        m == n,
{
    decimals_are_digits(m);
    decimals_are_digits(n);
}

/// One more digit multiplies what was read so far by the base and adds the digit; a character
/// that is no digit spoils the number.
pub proof fn digits_are_positional(s: Seq<char>, c: char, radix: nat)
    ensures
        text::digits_value(s, radix) is Some && text::digit_value(c, radix) is Some
            ==> text::digits_value(s.push(c), radix) == Some(
            text::digits_value(s, radix)->0 * radix + text::digit_value(c, radix)->0,
        ),
        text::digits_value(s, radix) is None || text::digit_value(c, radix) is None
            ==> text::digits_value(s.push(c), radix) is None,
{
    assert(s.push(c).drop_last() =~= s);
}

/// The digits are worth zero to nine, and in base sixteen the letters `a` to `f` of either case
/// ten to fifteen; nothing else is a digit.
pub proof fn digits_have_their_worth(k: nat, c: char)
    ensures
        k < 10 ==> text::digit_value((48 + k) as char, 10) == Some(k) && text::digit_value(
            (48 + k) as char,
            16,
        ) == Some(k),
        k < 6 ==> text::digit_value((97 + k) as char, 16) == Some((10 + k) as nat)
            && text::digit_value((65 + k) as char, 16) == Some((10 + k) as nat),
        text::digit_value(c, 10) is Some <==> '0' <= c <= '9',
        text::digit_value(c, 16) is Some <==> ('0' <= c <= '9' || 'a' <= c <= 'f' || 'A' <= c
            <= 'F'),
{
}

/// A plus sign before a number changes nothing; no digits are no number.
pub proof fn plus_signs_are_skipped(s: Seq<char>, radix: nat, max: nat)
    ensures
        s.len() > 0 && s[0] != '+' ==> text::parse_unsigned(seq!['+'] + s, radix, max)
            == text::parse_unsigned(s, radix, max),
        text::parse_unsigned(Seq::empty(), radix, max) is None,
        text::parse_unsigned(seq!['+'], radix, max) is None,
{
    assert((seq!['+'] + s).skip(1) =~= s);
    assert(seq!['+'].skip(1) =~= Seq::<char>::empty());
}

// ------------------------------------------------------------------ pieces

/// What follows the last separator is the rest of the text behind it, and the whole text when
/// there is none.
pub proof fn the_last_piece_is_the_rest(a: Seq<char>, b: Seq<char>, sep: char)
    requires
        !b.contains(sep),
    ensures
        split::after_last(a + seq![sep] + b, sep) == b,
        split::after_last(b, sep) == b,
{
    split::lemma_one_more_piece(a, b, sep);
    split::lemma_one_piece(b, sep);
}

/// A separator ends the first piece and the rest is cut by itself.
pub proof fn the_first_piece_is_cut_off(a: Seq<char>, b: Seq<char>, sep: char)
    requires
        !a.contains(sep),
    ensures
        split::split(a + seq![sep] + b, sep) == seq![a] + split::split(b, sep),
    decreases b.len(),
{
    let s = a + seq![sep] + b;
    if b.len() == 0 {
        assert(s.drop_last() =~= a);
        split::lemma_one_piece(a, sep);
        assert(split::split(s, sep) =~= seq![a] + split::split(b, sep));
    } else {
        let rest = b.drop_last();
        the_first_piece_is_cut_off(a, rest, sep);
        split::split_is_nonempty(rest, sep);
        assert(s.drop_last() =~= a + seq![sep] + rest);
        assert(split::split(s, sep) =~= seq![a] + split::split(b, sep));
    }
}

/// A line ends at its line feed, and at the carriage return before it when there is one; the
/// rest are the lines behind it.
pub proof fn lines_end_at_line_feeds(a: Seq<char>, b: Seq<char>)
    requires
        !a.contains('\n'),
    ensures
        a.len() == 0 || a.last() != '\r' ==> split::lines(a + seq!['\n'] + b) == seq![a]
            + split::lines(b),
        split::lines(a + seq!['\r', '\n'] + b) == seq![a] + split::lines(b),
        split::lines(Seq::empty()).len() == 0,
        a.len() > 0 ==> split::lines(a) == seq![a],
{
    the_first_piece_is_cut_off(a, b, '\n');
    split::split_is_nonempty(b, '\n');
    if a.len() == 0 || a.last() != '\r' {
        assert(split::strip_return(a) == a);
        assert(split::lines(a + seq!['\n'] + b) =~= seq![a] + split::lines(b));
    }
    let r = a.push('\r');
    assert forall|i: int| 0 <= i < r.len() implies r[i] != '\n' by {
        if i < a.len() {
            assert(a[i] != '\n');
        }
    }
    the_first_piece_is_cut_off(r, b, '\n');
    assert(r + seq!['\n'] + b =~= a + seq!['\r', '\n'] + b);
    assert(r.drop_last() =~= a);
    assert(split::lines(a + seq!['\r', '\n'] + b) =~= seq![a] + split::lines(b));
    if a.len() > 0 {
        split::lemma_one_piece(a, '\n');
        assert(split::lines(a) =~= seq![a]);
    }
}

/// White space parts words: the words around it are those before it and those behind it.
pub proof fn white_space_parts_words(a: Seq<char>, c: char, b: Seq<char>)
    requires
        split::is_space(c),
    ensures
        split::words(a.push(c) + b) == split::words(a) + split::words(b),
    decreases b.len(),
{
    let s = a.push(c) + b;
    if b.len() == 0 {
        assert(s =~= a.push(c));
        assert(s.drop_last() =~= a);
        assert(split::words(s) =~= split::words(a) + split::words(b));
    } else {
        let rest = b.drop_last();
        white_space_parts_words(a, c, rest);
        assert(s.drop_last() =~= a.push(c) + rest);
        split::words_are_solid(rest);
        if b.len() > 1 {
            assert(s[s.len() - 2] == b[b.len() - 2]);
            assert(rest.last() == b[b.len() - 2]);
        } else {
            assert(rest =~= Seq::<char>::empty());
            assert(s[s.len() - 2] == c);
        }
        assert(split::words(s) =~= split::words(a) + split::words(b));
    }
}

/// A text without white space is one word; an empty one is none.
pub proof fn solid_texts_are_one_word(s: Seq<char>)
    requires
        forall|i: int| 0 <= i < s.len() ==> !split::is_space(#[trigger] s[i]),
    ensures
        s.len() > 0 ==> split::words(s) == seq![s],
        s.len() == 0 ==> split::words(s).len() == 0,
    decreases s.len(),
{
    if s.len() > 0 {
        let rest = s.drop_last();
        assert forall|i: int| 0 <= i < rest.len() implies !split::is_space(#[trigger] rest[i]) by {
            assert(!split::is_space(s[i]));
        }
        solid_texts_are_one_word(rest);
        assert(!split::is_space(s[s.len() - 1]));
        if s.len() > 1 {
            assert(!split::is_space(s[s.len() - 2]));
            assert(rest.push(s.last()) =~= s);
        } else {
            assert(s =~= seq![s.last()]);
        }
        assert(split::words(s) =~= seq![s]);
    }
}

/// Blanks and tabs and the ends of lines are white space; letters, digits and punctuation are
/// not.
pub proof fn white_space_is_blank(c: char)
    ensures
        c == ' ' || c == '\t' || c == '\n' || c == '\r' ==> split::is_space(c),
        '!' <= c <= '~' ==> !split::is_space(c),
{
}

/// Words that hold no white space, joined by blanks, are the same words again.
pub proof fn joined_words_are_words(parts: Seq<Seq<char>>)
    requires
        forall|i: int| 0 <= i < parts.len() ==> (#[trigger] parts[i]).len() > 0,
        forall|i: int, j: int|
            0 <= i < parts.len() && 0 <= j < parts[i].len() ==> !split::is_space(
                #[trigger] parts[i][j],
            ),
    ensures
        split::words(split::join(parts, " "@)) == parts,
    decreases parts.len(),
{
    reveal_strlit(" ");
    if parts.len() == 1 {
        solid_texts_are_one_word(parts[0]);
        assert(parts =~= seq![parts[0]]);
    } else if parts.len() > 1 {
        let rest = parts.drop_last();
        assert forall|i: int| 0 <= i < rest.len() implies (#[trigger] rest[i]).len() > 0 by {
            assert(rest[i] == parts[i]);
        }
        assert forall|i: int, j: int|
            0 <= i < rest.len() && 0 <= j < rest[i].len() implies !split::is_space(
            #[trigger] rest[i][j],
        ) by {
            assert(rest[i][j] == parts[i][j]);
        }
        joined_words_are_words(rest);
        assert(parts[parts.len() - 1] == parts.last());
        solid_texts_are_one_word(parts.last());
        let a = split::join(rest, " "@);
        white_space_parts_words(a, ' ', parts.last());
        assert(a + " "@ + parts.last() =~= a.push(' ') + parts.last());
        assert(rest + seq![parts.last()] =~= parts);
    }
}

/// Joining one more text puts the separator and then the text behind what was joined so far.
pub proof fn joining_adds_at_the_end(parts: Seq<Seq<char>>, last: Seq<char>, sep: Seq<char>)
    ensures
        split::join(Seq::empty(), sep).len() == 0,
        split::join(seq![last], sep) == last,
        parts.len() > 0 ==> split::join(parts.push(last), sep) == split::join(parts, sep) + sep
            + last,
{
    assert(parts.push(last).drop_last() =~= parts);
}

/// Trimming takes white space from the two ends and nothing else; the result says where what is
/// left begins and ends.
pub proof fn trimming_takes_the_ends(s: Seq<char>) -> (ends: (int, int))
    ensures
        0 <= ends.0 <= ends.1 <= s.len(),
        split::trim(s) == s.subrange(ends.0, ends.1),
        forall|i: int| 0 <= i < ends.0 || ends.1 <= i < s.len() ==> split::is_space(#[trigger] s[i]),
        ends.0 < ends.1 ==> !split::is_space(s[ends.0]) && !split::is_space(s[ends.1 - 1]),
{
    let from = lemma_start_trimmed(s);
    let left = split::trim_start(s);
    let n = lemma_end_trimmed(left);
    assert(left.take(n) =~= s.subrange(from, from + n));
    assert forall|i: int| 0 <= i < from || from + n <= i < s.len() implies split::is_space(
        #[trigger] s[i],
    ) by {
        if i >= from {
            assert(left[i - from] == s[i]);
        }
    }
    (from, from + n)
}

proof fn lemma_start_trimmed(s: Seq<char>) -> (from: int)
    ensures
        0 <= from <= s.len(),
        split::trim_start(s) == s.skip(from),
        forall|i: int| 0 <= i < from ==> split::is_space(#[trigger] s[i]),
        from < s.len() ==> !split::is_space(s[from]),
    decreases s.len(),
{
    if s.len() > 0 && split::is_space(s[0]) {
        let n = lemma_start_trimmed(s.skip(1));
        assert(s.skip(1).skip(n) =~= s.skip(n + 1));
        assert forall|i: int| 0 <= i < n + 1 implies split::is_space(#[trigger] s[i]) by {
            if i > 0 {
                assert(split::is_space(s.skip(1)[i - 1]));
            }
        }
        n + 1
    } else {
        assert(s.skip(0) =~= s);
        0
    }
}

proof fn lemma_end_trimmed(s: Seq<char>) -> (n: int)
    ensures
        0 <= n <= s.len(),
        split::trim_end(s) == s.take(n),
        forall|i: int| n <= i < s.len() ==> split::is_space(#[trigger] s[i]),
        n > 0 ==> !split::is_space(s[n - 1]),
    decreases s.len(),
{
    if s.len() > 0 && split::is_space(s.last()) {
        let n = lemma_end_trimmed(s.drop_last());
        assert(s.drop_last().take(n) =~= s.take(n));
        assert forall|i: int| n <= i < s.len() implies split::is_space(#[trigger] s[i]) by {
            if i < s.len() - 1 {
                assert(split::is_space(s.drop_last()[i]));
            }
        }
        n
    } else {
        assert(s.take(s.len() as int) =~= s);
        s.len() as int
    }
}

/// What is found is the first place where a text stands, and it is found wherever it stands.
pub proof fn the_first_place_is_found(s: Seq<char>, p: Seq<char>, from: int)
    requires
        0 <= from,
    ensures
        match split::find(s, p, from) {
            Some(i) => from <= i && i + p.len() <= s.len() && s.subrange(i, i + p.len()) == p
                && forall|j: int|
                from <= j < i ==> #[trigger] s.subrange(j, j + p.len()) != p,
            None => forall|j: int|
                from <= j && j + p.len() <= s.len() ==> #[trigger] s.subrange(j, j + p.len()) != p,
        },
    decreases s.len() + 1 - from,
{
    if from + p.len() <= s.len() && !split::stands_at(s, from, p) {
        the_first_place_is_found(s, p, from + 1);
    }
}

/// One text holds another exactly when it is what stands before it, the other, and what stands
/// behind it.
pub proof fn texts_hold_their_middle(a: Seq<char>, p: Seq<char>, b: Seq<char>, s: Seq<char>)
    ensures
        split::contains(a + p + b, p),
        split::contains(s, p) ==> exists|i: int|
            0 <= i && i + p.len() <= s.len() && #[trigger] s.subrange(i, i + p.len()) == p,
{
    let whole = a + p + b;
    assert(whole.subrange(a.len() as int, (a.len() + p.len()) as int) =~= p);
    assert(split::stands_at(whole, a.len() as int, p));
    if split::contains(s, p) {
        let i = choose|i: int| split::stands_at(s, i, p);
        assert(s.subrange(i, i + p.len()) == p);
    }
}

/// A text is cut at the first place where the other stands: the two parts with it between them
/// are the text again.
pub proof fn texts_are_cut_once(s: Seq<char>, p: Seq<char>)
    ensures
        match split::split_once(s, p) {
            Some((a, b)) => a + p + b == s && split::before(s, p) == a && forall|j: int|
                0 <= j < a.len() ==> #[trigger] s.subrange(j, j + p.len()) != p,
            None => !split::contains(s, p) && split::before(s, p) == s,
        },
{
    the_first_place_is_found(s, p, 0);
    split::lemma_find(s, p, 0);
    match split::find(s, p, 0) {
        Some(i) => {
            assert(s.take(i) + p + s.skip(i + p.len()) =~= s);
        },
        None => {},
    }
}

/// A prefix or a suffix that is taken off can be put back, and is taken off wherever it stands.
pub proof fn ends_are_taken_off(s: Seq<char>, p: Seq<char>)
    ensures
        split::strip_prefix(p + s, p) == Some(s),
        split::strip_suffix(s + p, p) == Some(s),
        split::strip_prefix(s, p) is Some ==> p + split::strip_prefix(s, p)->0 == s,
        split::strip_suffix(s, p) is Some ==> split::strip_suffix(s, p)->0 + p == s,
        split::begins(p + s, p),
        split::ends(s + p, p),
{
    assert((p + s).take(p.len() as int) =~= p);
    assert((p + s).skip(p.len() as int) =~= s);
    assert((s + p).skip(s.len() as int) =~= p);
    assert((s + p).take(s.len() as int) =~= s);
    if split::begins(s, p) {
        assert(p + s.skip(p.len() as int) =~= s);
    }
    if split::ends(s, p) {
        assert(s.take(s.len() - p.len()) + p =~= s);
    }
}

/// The first character in which two texts differ orders them, and a text comes before whatever
/// continues it.
pub proof fn first_differences_decide(p: Seq<char>, x: char, a: Seq<char>, y: char, b: Seq<char>)
    ensures
        x < y ==> env::text_le(p.push(x) + a, p.push(y) + b) && !env::text_le(
            p.push(y) + b,
            p.push(x) + a,
        ),
        env::text_le(p, p + b),
        b.len() > 0 ==> !env::text_le(p + b, p),
    decreases p.len(),
{
    let s = p.push(x) + a;
    let t = p.push(y) + b;
    if p.len() > 0 {
        let q = p.skip(1);
        first_differences_decide(q, x, a, y, b);
        assert(s.skip(1) =~= q.push(x) + a);
        assert(t.skip(1) =~= q.push(y) + b);
        assert((p + b).skip(1) =~= q + b);
        assert(s[0] == p[0] && t[0] == p[0] && (p + b)[0] == p[0]);
    } else {
        assert(s[0] == x && t[0] == y);
    }
}

/// Lines in order are in order two by two.
pub proof fn order_goes_upward(s: Seq<Seq<char>>, i: int, j: int)
    requires
        env::in_order(s),
        0 <= i < j < s.len(),
    ensures
        env::text_le(s[i], s[j]),
{
}

/// A number is written without leading zeros, and with a minus sign only when it is negative.
pub proof fn decimals_are_short(n: nat, i: int)
    ensures
        n < 10 ==> text::decimal(n).len() == 1,
        n > 0 ==> text::decimal(n)[0] != '0',
        text::decimal(0) == seq!['0'],
        i >= 0 ==> text::signed_decimal(i) == text::decimal(i as nat),
        i < 0 ==> text::signed_decimal(i) == seq!['-'] + text::decimal((-i) as nat),
    decreases n,
{
    if n >= 10 {
        decimals_are_short(n / 10, i);
        decimals_are_digits(n / 10);
        assert(text::decimal(n)[0] == text::decimal(n / 10)[0]);
    }
}

/// A text with any character that is no digit is no number.
pub proof fn numbers_have_digits_only(s: Seq<char>, k: int, radix: nat)
    requires
        0 <= k < s.len(),
        text::digit_value(s[k], radix) is None,
    ensures
        text::digits_value(s, radix) is None,
        !(k == 0 && s[0] == '+') ==> forall|max: nat|
            (#[trigger] text::parse_unsigned(s, radix, max)) is None,
    decreases s.len(),
{
    if k < s.len() - 1 {
        assert(s.drop_last()[k] == s[k]);
        numbers_have_digits_only(s.drop_last(), k, radix);
    }
    if s[0] == '+' && k > 0 {
        assert(s.skip(1)[k - 1] == s[k]);
        numbers_have_digits_only(s.skip(1), k - 1, radix);
    }
}

/// White space is what Unicode calls so.
pub proof fn white_space_is_unicode(c: char)
    ensures
        split::is_space(c) <==> ({
            let n = c as int;
            9 <= n <= 13 || n == 32 || n == 133 || n == 160 || n == 5760 || 8192 <= n <= 8202 || n
                == 8232 || n == 8233 || n == 8239 || n == 8287 || n == 12288
        }),
{
}

} // verus!
