//! What the operations on text come to: how a text falls into its pieces, what
//! is cut off its ends, and how numbers are written in it.
use vstd::arithmetic::power::{lemma_pow0, lemma_pow1, lemma_pow_adds, pow};
use vstd::prelude::*;

use crate::text::{
    all_ascii, all_digits, ascii_lowercase, decimal, decimal_value,
    digit_char, has_part, has_prefix, has_suffix, is_digit, joined, last_at, lowercase, occurs_at,
    parsed_number, split_parts, split_parts_nonempty, text_lines, trimmed, trimmed_end,
    trimmed_start, up_to, uppercase, white, without_leading, without_prefix, without_return,
    without_suffix, without_trailing, word_state, words,
};

verus! {

// ---------------------------------------------------------------------------
// Letters
// ---------------------------------------------------------------------------

/// In lower case the letters `A` to `Z` become those that stand 32 places on,
/// every other character stays, and nothing is added or lost. A text of ASCII
/// has no other lower case.
pub proof fn letters_are_lowered(s: Seq<char>)
    ensures
        ascii_lowercase(s).len() == s.len(),
        forall|i: int|
            0 <= i < s.len() ==> if 65 <= s[i] as u32 && s[i] as u32 <= 90 {
                (#[trigger] ascii_lowercase(s)[i]) as u32 == s[i] as u32 + 32
            } else {
                ascii_lowercase(s)[i] == s[i]
            },
        all_ascii(s) ==> lowercase(s) == ascii_lowercase(s),
{
}

/// In upper case the letters `a` to `z` of a text of ASCII become those that
/// stand 32 places before, and every other character stays.
pub proof fn letters_are_raised(s: Seq<char>)
    requires
        forall|i: int| 0 <= i < s.len() ==> (#[trigger] s[i]) as u32 <= 127,
    ensures
        uppercase(s).len() == s.len(),
        forall|i: int|
            0 <= i < s.len() ==> if 97 <= s[i] as u32 && s[i] as u32 <= 122 {
                (#[trigger] uppercase(s)[i]) as u32 == s[i] as u32 - 32
            } else {
                uppercase(s)[i] == s[i]
            },
{
    assert(all_ascii(s));
}

/// Of the characters of ASCII, the space, the tab, the line feed, the vertical
/// tab, the form feed and the carriage return are white space, and no others.
pub proof fn ascii_white_space(c: char)
    requires
        c as u32 <= 127,
    ensures
        white(c) <==> c == ' ' || c == '\t' || c == '\n' || c == '\x0b' || c == '\x0c' || c == '\r',
{
}

// ---------------------------------------------------------------------------
// Prefixes, suffixes and parts
// ---------------------------------------------------------------------------

/// A text starts with another where it is that one with something after it.
pub proof fn prefix_and_rest(p: Seq<char>, rest: Seq<char>)
    ensures
        has_prefix(p + rest, p),
        without_prefix(p + rest, p) == rest,
{
    assert((p + rest).subrange(0, p.len() as int) =~= p);
    assert((p + rest).subrange(p.len() as int, (p + rest).len() as int) =~= rest);
}

/// A text that does not start with another stays whole without it; one that
/// does is that one and what is left.
pub proof fn prefix_or_whole(s: Seq<char>, p: Seq<char>)
    ensures
        has_prefix(s, p) ==> s == p + without_prefix(s, p),
        !has_prefix(s, p) ==> without_prefix(s, p) == s,
        has_prefix(s, p) <==> exists|rest: Seq<char>| s == #[trigger] (p + rest),
{
    if has_prefix(s, p) {
        let rest = without_prefix(s, p);
        assert(s =~= p + rest);
    }
    if exists|rest: Seq<char>| s == #[trigger] (p + rest) {
        let rest = choose|rest: Seq<char>| s == #[trigger] (p + rest);
        prefix_and_rest(p, rest);
    }
}

/// A text ends with another where it is that one with something before it.
pub proof fn rest_and_suffix(rest: Seq<char>, p: Seq<char>)
    ensures
        has_suffix(rest + p, p),
        without_suffix(rest + p, p) == rest,
{
    let s = rest + p;
    assert(s.subrange(s.len() - p.len(), s.len() - p.len() + p.len()) =~= p);
    assert(s.subrange(0, s.len() - p.len()) =~= rest);
}

/// A text that does not end with another stays whole without it; one that does
/// is what is left and that one.
pub proof fn suffix_or_whole(s: Seq<char>, p: Seq<char>)
    ensures
        has_suffix(s, p) ==> s == without_suffix(s, p) + p,
        !has_suffix(s, p) ==> without_suffix(s, p) == s,
        has_suffix(s, p) <==> exists|rest: Seq<char>| s == #[trigger] (rest + p),
{
    if has_suffix(s, p) {
        let rest = without_suffix(s, p);
        assert(s =~= rest + p);
    }
    if exists|rest: Seq<char>| s == #[trigger] (rest + p) {
        let rest = choose|rest: Seq<char>| s == #[trigger] (rest + p);
        rest_and_suffix(rest, p);
    }
}

/// A text holds another where it is that one with something before it and
/// something after it.
pub proof fn part_in_the_middle(s: Seq<char>, p: Seq<char>)
    ensures
        has_part(s, p) <==> exists|a: Seq<char>, b: Seq<char>| s == #[trigger] (a + p + b),
{
    if has_part(s, p) {
        let i = choose|i: int| occurs_at(s, p, i);
        let a = s.subrange(0, i);
        let b = s.subrange(i + p.len(), s.len() as int);
        assert(s =~= a + p + b);
    }
    if exists|a: Seq<char>, b: Seq<char>| s == #[trigger] (a + p + b) {
        let (a, b) = choose|a: Seq<char>, b: Seq<char>| s == #[trigger] (a + p + b);
        assert(s.subrange(a.len() as int, a.len() as int + p.len()) =~= p);
        assert(occurs_at(s, p, a.len() as int));
    }
}

/// The last place of a text is the greatest at which it stands, if any.
pub proof fn last_place_is_greatest(s: Seq<char>, p: Seq<char>, from: int)
    ensures
        last_at(s, p, from) >= 0 ==> last_at(s, p, from) <= from && last_at(s, p, from) + p.len()
            <= s.len() && s.subrange(last_at(s, p, from), last_at(s, p, from) + p.len()) == p,
        forall|k: int| last_at(s, p, from) < k <= from && k >= 0 ==> !#[trigger] occurs_at(s, p, k),
    decreases from + 1,
{
    if from >= 0 && !occurs_at(s, p, from) {
        last_place_is_greatest(s, p, from - 1);
    }
}

// ---------------------------------------------------------------------------
// Pieces
// ---------------------------------------------------------------------------

/// What stands before the first of a character is everything up to it, and the
/// whole text where it does not occur.
pub proof fn cut_at_the_first(a: Seq<char>, b: Seq<char>, c: char)
    requires
        !a.contains(c),
    ensures
        up_to(a, c) == a,
        up_to(a + seq![c] + b, c) == a,
    decreases a.len(),
{
    let s = a + seq![c] + b;
    if a.len() > 0 {
        let r = a.drop_first();
        assert(a.contains(a[0]));
        assert(!r.contains(c)) by {
            if r.contains(c) {
                let i = choose|i: int| 0 <= i < r.len() && r[i] == c;
                assert(a[i + 1] == c);
            }
        }
        cut_at_the_first(r, b, c);
        assert(s.drop_first() =~= r + seq![c] + b);
        assert(seq![a[0]] + r =~= a);
    } else {
        assert(a =~= Seq::<char>::empty());
    }
}

/// A text without a separator is one part.
pub proof fn whole_is_one_part(s: Seq<char>, sep: char)
    requires
        !s.contains(sep),
    ensures
        split_parts(s, sep) == seq![s],
    decreases s.len(),
{
    if s.len() > 0 {
        let r = s.drop_last();
        assert(s.contains(s.last()));
        assert(!r.contains(sep)) by {
            if r.contains(sep) {
                let i = choose|i: int| 0 <= i < r.len() && r[i] == sep;
                assert(s[i] == sep);
            }
        }
        whole_is_one_part(r, sep);
        assert(r.push(s.last()) =~= s);
        assert(split_parts(s, sep) =~= seq![s]);
    } else {
        assert(s =~= Seq::<char>::empty());
    }
}

/// A separator ends a part, and the next begins behind it: the parts of two
/// texts with a separator between them are those of the one and those of the
/// other.
pub proof fn parts_on_both_sides(a: Seq<char>, b: Seq<char>, sep: char)
    ensures
        split_parts(a + seq![sep] + b, sep) == split_parts(a, sep) + split_parts(b, sep),
    decreases b.len(),
{
    let s = a + seq![sep] + b;
    split_parts_nonempty(a, sep);
    if b.len() == 0 {
        assert(s.drop_last() =~= a);
        assert(s.last() == sep);
        assert(b =~= Seq::<char>::empty());
        assert(split_parts(s, sep) =~= split_parts(a, sep) + split_parts(b, sep));
    } else {
        let r = b.drop_last();
        parts_on_both_sides(a, r, sep);
        split_parts_nonempty(r, sep);
        assert(s.drop_last() =~= a + seq![sep] + r);
        assert(s.last() == b.last());
        assert(split_parts(s, sep) =~= split_parts(a, sep) + split_parts(b, sep));
    }
}

/// The parts of a text, with the separator between them, are the text, and none
/// of them holds the separator.
pub proof fn parts_are_the_text(s: Seq<char>, sep: char)
    ensures
        joined(split_parts(s, sep), seq![sep]) == s,
        forall|i: int|
            0 <= i < split_parts(s, sep).len() ==> !(#[trigger] split_parts(s, sep)[i]).contains(
                sep,
            ),
    decreases s.len(),
{
    let all = split_parts(s, sep);
    split_parts_nonempty(s, sep);
    if s.len() == 0 {
        assert(joined(all, seq![sep]) =~= s);
        assert(all[0] =~= Seq::<char>::empty());
    } else {
        let r = s.drop_last();
        let before = split_parts(r, sep);
        split_parts_nonempty(r, sep);
        parts_are_the_text(r, sep);
        if s.last() == sep {
            assert(all.drop_last() =~= before);
            assert(joined(all, seq![sep]) =~= r + seq![sep]);
            assert(joined(all, seq![sep]) =~= s);
        } else {
            assert(all.drop_last() =~= before.drop_last());
            assert(joined(all, seq![sep]) =~= joined(before, seq![sep]).push(s.last()));
            assert(joined(all, seq![sep]) =~= s);
            assert forall|i: int| 0 <= i < all.len() implies !(#[trigger] all[i]).contains(sep) by {
                if i < all.len() - 1 {
                    assert(all[i] == before[i]);
                } else {
                    assert(!before[before.len() - 1].contains(sep));
                    let w = before.last().push(s.last());
                    if w.contains(sep) {
                        let k = choose|k: int| 0 <= k < w.len() && w[k] == sep;
                        assert(before.last()[k] == sep);
                    }
                }
            }
        }
    }
}

proof fn front_part(a: Seq<char>, b: Seq<char>)
    requires
        !a.contains('\n'),
    ensures
        split_parts(a + seq!['\n'] + b, '\n') == seq![a] + split_parts(b, '\n'),
{
    parts_on_both_sides(a, b, '\n');
    whole_is_one_part(a, '\n');
}

/// A line feed ends a line, and a carriage return before it belongs to the end.
/// What follows the last line feed is a line where it is not empty.
pub proof fn lines_end_at_feeds(a: Seq<char>, b: Seq<char>)
    requires
        !a.contains('\n'),
    ensures
        a.len() > 0 ==> text_lines(a) == seq![a],
        a.len() == 0 ==> text_lines(a) == Seq::<Seq<char>>::empty(),
        text_lines(a + seq!['\r', '\n'] + b) == seq![a] + text_lines(b),
        a.len() == 0 || a.last() != '\r' ==> text_lines(a + seq!['\n'] + b) == seq![a]
            + text_lines(b),
{
    whole_is_one_part(a, '\n');
    assert(text_lines(a) =~= if a.len() > 0 {
        seq![a]
    } else {
        Seq::empty()
    });
    split_parts_nonempty(b, '\n');
    let rest = split_parts(b, '\n');
    front_part(a, b);
    let p = split_parts(a + seq!['\n'] + b, '\n');
    assert(p.last() == rest.last());
    assert(text_lines(a + seq!['\n'] + b) =~= seq![without_return(a)] + text_lines(b));
    let c = a.push('\r');
    assert(!c.contains('\n')) by {
        if c.contains('\n') {
            let i = choose|i: int| 0 <= i < c.len() && c[i] == '\n';
            assert(a[i] == '\n');
        }
    }
    front_part(c, b);
    assert(c + seq!['\n'] + b =~= a + seq!['\r', '\n'] + b);
    assert(without_return(c) =~= a);
    let q = split_parts(a + seq!['\r', '\n'] + b, '\n');
    assert(q.last() == rest.last());
    assert(text_lines(a + seq!['\r', '\n'] + b) =~= seq![a] + text_lines(b));
}

proof fn word_in_progress(w: Seq<char>)
    requires
        forall|i: int| 0 <= i < w.len() ==> !white(#[trigger] w[i]),
    ensures
        word_state(w) == (Seq::<Seq<char>>::empty(), w),
    decreases w.len(),
{
    if w.len() > 0 {
        word_in_progress(w.drop_last());
        assert(!white(w[w.len() - 1]));
        assert(w.drop_last().push(w.last()) =~= w);
    } else {
        assert(w =~= Seq::<char>::empty());
    }
}

proof fn words_go_on(a: Seq<char>, c: char, b: Seq<char>)
    requires
        white(c),
    ensures
        word_state(a + seq![c] + b).0 == words(a) + word_state(b).0,
        word_state(a + seq![c] + b).1 == word_state(b).1,
    decreases b.len(),
{
    let s = a + seq![c] + b;
    if b.len() == 0 {
        assert(s.drop_last() =~= a);
        assert(s.last() == c);
        assert(words(a) + word_state(b).0 =~= words(a));
        assert(word_state(s).1 =~= Seq::<char>::empty());
    } else {
        words_go_on(a, c, b.drop_last());
        assert(s.drop_last() =~= a + seq![c] + b.drop_last());
        assert(s.last() == b.last());
        let (done, cur) = word_state(b.drop_last());
        if white(b.last()) && cur.len() > 0 {
            assert((words(a) + done).push(cur) =~= words(a) + done.push(cur));
        }
    }
}

/// White space ends a word: the words of two texts with white space between
/// them are those of the one and those of the other. A text without white space
/// is one word, and nothing is none.
pub proof fn words_on_both_sides(a: Seq<char>, c: char, b: Seq<char>)
    requires
        white(c),
    ensures
        words(a + seq![c] + b) == words(a) + words(b),
{
    words_go_on(a, c, b);
    let (done, cur) = word_state(b);
    if cur.len() > 0 {
        assert((words(a) + done).push(cur) =~= words(a) + done.push(cur));
    }
}

/// A text without white space is one word, and nothing is none.
pub proof fn whole_is_one_word(w: Seq<char>)
    requires
        forall|i: int| 0 <= i < w.len() ==> !white(#[trigger] w[i]),
    ensures
        w.len() > 0 ==> words(w) == seq![w],
        w.len() == 0 ==> words(w) == Seq::<Seq<char>>::empty(),
{
    word_in_progress(w);
    if w.len() > 0 {
        assert(words(w) =~= seq![w]);
    }
}

/// Texts are joined with the separator between each two of them.
pub proof fn joined_on_both_sides(a: Seq<Seq<char>>, b: Seq<Seq<char>>, sep: Seq<char>)
    ensures
        a.len() == 0 ==> joined(a + b, sep) == joined(b, sep),
        b.len() == 0 ==> joined(a + b, sep) == joined(a, sep),
        a.len() > 0 && b.len() > 0 ==> joined(a + b, sep) == joined(a, sep) + sep + joined(b, sep),
        b.len() == 1 ==> joined(b, sep) == b[0],
        b.len() == 0 ==> joined(b, sep) == Seq::<char>::empty(),
    decreases b.len(),
{
    if a.len() == 0 {
        assert(a + b =~= b);
    }
    if b.len() == 0 {
        assert(a + b =~= a);
    }
    if a.len() > 0 && b.len() > 0 {
        let s = a + b;
        assert(s.drop_last() =~= a + b.drop_last());
        assert(s.last() == b.last());
        joined_on_both_sides(a, b.drop_last(), sep);
        assert(joined(s, sep) =~= joined(a, sep) + sep + joined(b, sep));
    }
}

// ---------------------------------------------------------------------------
// Ends
// ---------------------------------------------------------------------------

proof fn start_is_trimmed(a: Seq<char>, t: Seq<char>)
    requires
        forall|i: int| 0 <= i < a.len() ==> white(#[trigger] a[i]),
        t.len() == 0 || !white(t[0]),
    ensures
        trimmed_start(a + t) == t,
    decreases a.len(),
{
    let s = a + t;
    if a.len() > 0 {
        assert(white(a[0]));
        let r = a.drop_first();
        assert(s.subrange(1, s.len() as int) =~= r + t);
        assert forall|i: int| 0 <= i < r.len() implies white(#[trigger] r[i]) by {
            assert(r[i] == a[i + 1]);
        }
        start_is_trimmed(r, t);
    } else {
        assert(s =~= t);
    }
}

proof fn end_is_trimmed(t: Seq<char>, b: Seq<char>)
    requires
        forall|i: int| 0 <= i < b.len() ==> white(#[trigger] b[i]),
        t.len() == 0 || !white(t[t.len() - 1]),
    ensures
        trimmed_end(t + b) == t,
    decreases b.len(),
{
    let s = t + b;
    if b.len() > 0 {
        assert(white(b[b.len() - 1]));
        let r = b.drop_last();
        assert(s.subrange(0, s.len() - 1) =~= t + r);
        end_is_trimmed(t, r);
    } else {
        assert(s =~= t);
    }
}

/// White space is trimmed off both ends of a text, and nothing else.
pub proof fn white_ends_are_trimmed(a: Seq<char>, t: Seq<char>, b: Seq<char>)
    requires
        forall|i: int| 0 <= i < a.len() ==> white(#[trigger] a[i]),
        forall|i: int| 0 <= i < b.len() ==> white(#[trigger] b[i]),
        t.len() == 0 || !white(t[0]) && !white(t[t.len() - 1]),
    ensures
        trimmed(a + t + b) == t,
{
    if t.len() == 0 {
        let s = a + t + b;
        let e = Seq::<char>::empty();
        assert(s =~= s + e);
        assert forall|i: int| 0 <= i < s.len() implies white(#[trigger] s[i]) by {
            if i < a.len() {
                assert(s[i] == a[i]);
            } else {
                assert(s[i] == b[i - a.len()]);
            }
        }
        start_is_trimmed(s, e);
        end_is_trimmed(e, e);
        assert(e + e =~= e);
        assert(t =~= e);
    } else {
        assert(a + t + b =~= a + (t + b));
        start_is_trimmed(a, t + b);
        end_is_trimmed(t, b);
    }
}

/// A character is cut off the end of a text as often as it stands there, and
/// nothing else.
pub proof fn trailing_run_is_cut(t: Seq<char>, run: Seq<char>, c: char)
    requires
        t.len() == 0 || t[t.len() - 1] != c,
        forall|i: int| 0 <= i < run.len() ==> #[trigger] run[i] == c,
    ensures
        without_trailing(t + run, c) == t,
    decreases run.len(),
{
    let s = t + run;
    if run.len() > 0 {
        let r = run.drop_last();
        assert(run[run.len() - 1] == c);
        assert(s.subrange(0, s.len() - 1) =~= t + r);
        trailing_run_is_cut(t, r, c);
    } else {
        assert(s =~= t);
    }
}

/// A character is cut off the start of a text as often as it stands there, and
/// nothing else.
pub proof fn leading_run_is_cut(run: Seq<char>, t: Seq<char>, c: char)
    requires
        t.len() == 0 || t[0] != c,
        forall|i: int| 0 <= i < run.len() ==> #[trigger] run[i] == c,
    ensures
        without_leading(run + t, c) == t,
    decreases run.len(),
{
    let s = run + t;
    if run.len() > 0 {
        let r = run.drop_first();
        assert(run[0] == c);
        assert(s.subrange(1, s.len() as int) =~= r + t);
        assert forall|i: int| 0 <= i < r.len() implies #[trigger] r[i] == c by {
            assert(r[i] == run[i + 1]);
        }
        leading_run_is_cut(r, t, c);
    } else {
        assert(s =~= t);
    }
}

// ---------------------------------------------------------------------------
// Numbers
// ---------------------------------------------------------------------------

/// A number is written in the digits `0` to `9`, the first of which is zero for
/// zero alone, and its digits give it back.
pub proof fn digits_give_the_number(n: nat)
    ensures
        decimal(n).len() > 0,
        forall|i: int|
            0 <= i < decimal(n).len() ==> '0' <= (#[trigger] decimal(n)[i]) && decimal(n)[i]
                <= '9',
        n > 0 ==> decimal(n)[0] != '0',
        decimal_value(decimal(n)) == n,
        n < 10 ==> decimal(n).len() == 1,
        decimal(n).len() <= n + 1,
    decreases n,
{
    let c = digit_char((n % 10) as int);
    assert(c as u32 == 48 + n % 10);
    if n < 10 {
        assert(n % 10 == n);
        assert(decimal(n) =~= seq![c]);
        assert(decimal(n).drop_last() =~= Seq::<char>::empty());
        assert(decimal_value(decimal(n).drop_last()) == 0);
    } else {
        digits_give_the_number(n / 10);
        assert(decimal(n).drop_last() =~= decimal(n / 10));
        assert(decimal(n).last() == c);
    }
}

/// Each digit of a number counts ten times what it counts one place on.
pub proof fn digits_count_by_place(a: Seq<char>, b: Seq<char>)
    ensures
        decimal_value(a + b) == decimal_value(a) * pow(10, b.len()) + decimal_value(b),
    decreases b.len(),
{
    lemma_pow0(10);
    if b.len() == 0 {
        assert(a + b =~= a);
    } else {
        let s = a + b;
        assert(s.drop_last() =~= a + b.drop_last());
        digits_count_by_place(a, b.drop_last());
        lemma_pow_adds(10, (b.len() - 1) as nat, 1);
        lemma_pow1(10);
        let x = decimal_value(a) as int;
        let p = pow(10, (b.len() - 1) as nat);
        assert((x * p) * 10 == x * (p * 10)) by (nonlinear_arith);
    }
}

/// A number is read back from its digits, with or without a plus before them.
/// What holds anything but digits behind the plus is no number.
pub proof fn numbers_are_read(n: nat, s: Seq<char>)
    ensures
        parsed_number(decimal(n)) == Some(n),
        parsed_number(seq!['+'] + decimal(n)) == Some(n),
        s.len() == 0 ==> parsed_number(s) is None,
        (exists|i: int| 0 < i < s.len() && !('0' <= (#[trigger] s[i]) && s[i] <= '9'))
            ==> parsed_number(s) is None,
        s.len() > 0 && s[0] != '+' && !('0' <= s[0] && s[0] <= '9') ==> parsed_number(s)
            is None,
        s == seq!['+'] ==> parsed_number(s) is None,
{
    let d = decimal(n);
    digits_give_the_number(n);
    assert(all_digits(d)) by {
        assert forall|i: int| 0 <= i < d.len() implies is_digit(#[trigger] d[i]) by {
            assert('0' <= decimal(n)[i]);
        }
    }
    assert('0' <= decimal(n)[0]);
    let t = seq!['+'] + d;
    assert(t.subrange(1, t.len() as int) =~= d);
    if exists|i: int| 0 < i < s.len() && !('0' <= (#[trigger] s[i]) && s[i] <= '9') {
        let i = choose|i: int| 0 < i < s.len() && !('0' <= (#[trigger] s[i]) && s[i] <= '9');
        assert(!is_digit(s[i]));
        if s[0] == '+' {
            let r = s.subrange(1, s.len() as int);
            assert(r[i - 1] == s[i]);
            assert(!all_digits(r));
        } else {
            assert(!all_digits(s));
        }
    }
    if s.len() > 0 && s[0] != '+' && !('0' <= s[0] && s[0] <= '9') {
        assert(!is_digit(s[0]));
        assert(!all_digits(s));
    }
}

} // verus!
