//! What the file of domains comes to: which lines count, and what is answered
//! for the domains that stand in them.
use vstd::prelude::*;
use vstd::utf8::{decode_utf8, valid_utf8};

use crate::buffer::{at16, be16, be32};
use crate::dev_domains::{
    at_line, line_content, loaded, plain_domain, with_domains, with_line, with_lines,
};
use crate::dev_server::{
    asked, default_options, labels_at, query_of, response_bytes, result_of, Asked, OptionsView,
    QueryResult, QueryView,
};
use crate::net::{ip_text, socket_text, up_to_is_prefix, v4_bits, IpAddr, Ipv4Addr};
use crate::text::{
    ascii_lower, ascii_lowercase, decimal, joined, split_parts, split_parts_nonempty, text_lines,
    trimmed, trimmed_end, trimmed_start, up_to, white, without_trailing, words,
};
use crate::text_laws::{
    numbers_are_read, parts_on_both_sides, trailing_run_is_cut, white_ends_are_trimmed,
    whole_is_one_part,
};
use crate::wire::name_skip;

verus! {

// ---------------------------------------------------------------------------
// Lines that do not count
// ---------------------------------------------------------------------------

proof fn first_part_stays(s: Seq<char>, t: Seq<char>, sep: char)
    requires
        t.len() > 0,
        t[0] == sep,
    ensures
        split_parts(s + t, sep).len() >= 2,
        split_parts(s + t, sep)[0] == split_parts(s, sep)[0],
    decreases t.len(),
{
    split_parts_nonempty(s, sep);
    let all = s + t;
    if t.len() == 1 {
        assert(all.drop_last() =~= s);
        assert(all.last() == sep);
    } else {
        first_part_stays(s, t.drop_last(), sep);
        assert(all.drop_last() =~= s + t.drop_last());
    }
}

/// What stands after a `#` does not count.
pub proof fn comments_are_ignored(
    path: Seq<char>,
    number: nat,
    kept: Seq<char>,
    remark: Seq<char>,
    map: Map<Seq<char>, Ipv4Addr>,
)
    ensures
        with_line(path, number, kept + seq!['#'] + remark, map) == with_line(
            path,
            number,
            kept,
            map,
        ),
{
    let t = seq!['#'] + remark;
    assert(kept + seq!['#'] + remark =~= kept + t);
    first_part_stays(kept, t, '#');
}

proof fn white_is_whole(s: Seq<char>)
    requires
        forall|i: int| 0 <= i < s.len() ==> white(#[trigger] s[i]),
    ensures
        split_parts(s, '#') == seq![s],
    decreases s.len(),
{
    if s.len() > 0 {
        white_is_whole(s.drop_last());
        assert(white(s[s.len() - 1]));
        assert(s.drop_last().push(s.last()) =~= s);
        assert(split_parts(s, '#') =~= seq![s]);
    } else {
        assert(s =~= Seq::<char>::empty());
    }
}

proof fn white_is_trimmed(s: Seq<char>)
    requires
        forall|i: int| 0 <= i < s.len() ==> white(#[trigger] s[i]),
    ensures
        trimmed_start(s).len() == 0,
    decreases s.len(),
{
    if s.len() > 0 {
        assert(white(s[0]));
        let t = s.subrange(1, s.len() as int);
        assert forall|i: int| 0 <= i < t.len() implies white(#[trigger] t[i]) by {
            assert(t[i] == s[i + 1]);
        }
        white_is_trimmed(t);
    }
}

/// A line of nothing but white space does not count.
pub proof fn blank_lines_are_ignored(
    path: Seq<char>,
    number: nat,
    raw: Seq<char>,
    map: Map<Seq<char>, Ipv4Addr>,
)
    requires
        forall|i: int| 0 <= i < raw.len() ==> white(#[trigger] raw[i]),
    ensures
        with_line(path, number, raw, map) == Ok::<Map<Seq<char>, Ipv4Addr>, Seq<char>>(map),
{
    white_is_whole(raw);
    white_is_trimmed(raw);
}

// ---------------------------------------------------------------------------
// The form of a domain
// ---------------------------------------------------------------------------

proof fn lower_start(s: Seq<char>)
    ensures
        ascii_lowercase(trimmed_start(s)) == trimmed_start(ascii_lowercase(s)),
    decreases s.len(),
{
    if s.len() > 0 && white(s[0]) {
        let t = s.subrange(1, s.len() as int);
        let l = ascii_lowercase(s);
        lower_start(t);
        assert(l.subrange(1, l.len() as int) =~= ascii_lowercase(t));
    }
}

proof fn lower_end(s: Seq<char>)
    ensures
        ascii_lowercase(trimmed_end(s)) == trimmed_end(ascii_lowercase(s)),
    decreases s.len(),
{
    if s.len() > 0 && white(s[s.len() - 1]) {
        let t = s.subrange(0, s.len() - 1);
        let l = ascii_lowercase(s);
        lower_end(t);
        assert(l.subrange(0, l.len() - 1) =~= ascii_lowercase(t));
    }
}

proof fn lower_dots(s: Seq<char>)
    ensures
        ascii_lowercase(without_trailing(s, '.')) == without_trailing(ascii_lowercase(s), '.'),
    decreases s.len(),
{
    if s.len() > 0 && s[s.len() - 1] == '.' {
        let t = s.subrange(0, s.len() - 1);
        let l = ascii_lowercase(s);
        lower_dots(t);
        assert(l.subrange(0, l.len() - 1) =~= ascii_lowercase(t));
    }
}

/// A domain is looked up without regard to the case of ASCII letters.
pub proof fn letter_case_is_ignored(a: Seq<char>, b: Seq<char>)
    requires
        ascii_lowercase(a) == ascii_lowercase(b),
    ensures
        plain_domain(a) == plain_domain(b),
{
    lower_start(a);
    lower_start(b);
    lower_end(trimmed_start(a));
    lower_end(trimmed_start(b));
    lower_dots(trimmed(a));
    lower_dots(trimmed(b));
}

proof fn dots_are_gone(s: Seq<char>)
    ensures
        without_trailing(s, '.').len() > 0 ==> without_trailing(s, '.').last() != '.',
    decreases s.len(),
{
    if s.len() > 0 && s[s.len() - 1] == '.' {
        dots_are_gone(s.subrange(0, s.len() - 1));
    }
}

/// Whether a domain has no ASCII letter in upper case and no dot at its end.
pub open spec fn in_plain_form(d: Seq<char>) -> bool {
    ascii_lowercase(d) == d && (d.len() > 0 ==> d.last() != '.')
}

/// A domain in the form in which it is looked up has no ASCII letter in upper
/// case and no dot at its end.
pub proof fn looked_up_form_is_plain(d: Seq<char>)
    ensures
        in_plain_form(plain_domain(d)),
{
    let t = without_trailing(trimmed(d), '.');
    dots_are_gone(trimmed(d));
    assert(ascii_lowercase(ascii_lowercase(t)) =~= ascii_lowercase(t));
    if t.len() > 0 {
        assert(ascii_lowercase(t).last() == ascii_lower(t.last()));
    }
}

// ---------------------------------------------------------------------------
// What is answered
// ---------------------------------------------------------------------------

/// Whether a line gives a domain an address.
pub open spec fn line_gives(raw: Seq<char>, d: Seq<char>) -> bool {
    let parts = words(line_content(raw));
    line_content(raw).len() > 0 && exists|j: int|
        1 <= j < parts.len() && plain_domain(#[trigger] parts[j]) == d
}

/// The address at the start of a line.
pub open spec fn line_address(raw: Seq<char>) -> Option<IpAddr> {
    ip_text(words(line_content(raw))[0])
}

proof fn domains_given(
    place: Seq<char>,
    ip: Ipv4Addr,
    ds: Seq<Seq<char>>,
    map: Map<Seq<char>, Ipv4Addr>,
    d: Seq<char>,
)
    ensures
        with_domains(place, ip, ds, map) matches Ok(m) ==> {
            if exists|j: int| 0 <= j < ds.len() && plain_domain(#[trigger] ds[j]) == d {
                m.contains_key(d) && m[d] == ip
            } else {
                m.contains_key(d) == map.contains_key(d) && m[d] == map[d]
            }
        },
    decreases ds.len(),
{
    if ds.len() > 0 {
        let before = ds.drop_last();
        domains_given(place, ip, before, map, d);
        let named = |v: Seq<Seq<char>>|
            exists|j: int| 0 <= j < v.len() && plain_domain(#[trigger] v[j]) == d;
        if plain_domain(ds.last()) == d {
            assert(plain_domain(ds[ds.len() - 1]) == d);
        } else {
            if named(before) {
                let j = choose|j: int| 0 <= j < before.len() && plain_domain(#[trigger] before[j]) == d;
                assert(plain_domain(ds[j]) == d);
            }
            if named(ds) {
                let j = choose|j: int| 0 <= j < ds.len() && plain_domain(#[trigger] ds[j]) == d;
                assert(before[j] == ds[j]);
            }
        }
    }
}

proof fn line_given(
    path: Seq<char>,
    number: nat,
    raw: Seq<char>,
    map: Map<Seq<char>, Ipv4Addr>,
    d: Seq<char>,
)
    ensures
        with_line(path, number, raw, map) matches Ok(m) ==> {
            if line_gives(raw, d) {
                m.contains_key(d) && line_address(raw) == Some(IpAddr::V4(m[d]))
            } else {
                m.contains_key(d) == map.contains_key(d) && m[d] == map[d]
            }
        },
{
    let parts = words(line_content(raw));
    if line_content(raw).len() > 0 && parts.len() >= 2 {
        if let Some(IpAddr::V4(ip)) = ip_text(parts[0]) {
            let ds = parts.subrange(1, parts.len() as int);
            domains_given(at_line(path, number), ip, ds, map, d);
            if line_gives(raw, d) {
                let j = choose|j: int|
                    1 <= j < parts.len() && plain_domain(#[trigger] parts[j]) == d;
                assert(ds[j - 1] == parts[j]);
            }
            if exists|j: int| 0 <= j < ds.len() && plain_domain(#[trigger] ds[j]) == d {
                let j = choose|j: int| 0 <= j < ds.len() && plain_domain(#[trigger] ds[j]) == d;
                assert(parts[j + 1] == ds[j]);
            }
        }
    }
}

/// A domain that stands in a file has the address of the last line that it
/// stands in.
pub proof fn last_line_counts(path: Seq<char>, ls: Seq<Seq<char>>, i: int, d: Seq<char>)
    requires
        with_lines(path, ls) is Ok,
        0 <= i < ls.len(),
        line_gives(ls[i], d),
        forall|k: int| i < k < ls.len() ==> !line_gives(#[trigger] ls[k], d),
    ensures
        ({
            let map = with_lines(path, ls)->Ok_0;
            map.contains_key(d) && line_address(ls[i]) == Some(IpAddr::V4(map[d]))
        }),
    decreases ls.len(),
{
    let before = ls.drop_last();
    line_given(path, ls.len(), ls.last(), with_lines(path, before)->Ok_0, d);
    if i < ls.len() - 1 {
        assert(before[i] == ls[i]);
        assert forall|k: int| i < k < before.len() implies !line_gives(#[trigger] before[k], d) by {
            assert(before[k] == ls[k]);
        }
        last_line_counts(path, before, i, d);
        assert(!line_gives(ls[ls.len() - 1], d));
    }
}

/// A domain that stands in no line of a file has no address.
pub proof fn other_domains_are_unknown(path: Seq<char>, ls: Seq<Seq<char>>, d: Seq<char>)
    requires
        with_lines(path, ls) is Ok,
        forall|k: int| 0 <= k < ls.len() ==> !line_gives(#[trigger] ls[k], d),
    ensures
        !with_lines(path, ls)->Ok_0.contains_key(d),
    decreases ls.len(),
{
    if ls.len() > 0 {
        let before = ls.drop_last();
        assert forall|k: int| 0 <= k < before.len() implies !line_gives(#[trigger] before[k], d) by {
            assert(before[k] == ls[k]);
        }
        other_domains_are_unknown(path, before, d);
        assert(!line_gives(ls[ls.len() - 1], d));
        line_given(path, ls.len(), ls.last(), with_lines(path, before)->Ok_0, d);
    }
}

/// A question for the address of a domain of the file is answered with the
/// address of the last line that the domain stands in. Questions of other types,
/// for an IPv6 address too, get empty answers.
pub proof fn configured_domain_is_answered(
    path: Seq<char>,
    ls: Seq<Seq<char>>,
    i: int,
    d: Seq<char>,
    qtype: u16,
)
    requires
        with_lines(path, ls) is Ok,
        0 <= i < ls.len(),
        line_gives(ls[i], d),
        forall|k: int| i < k < ls.len() ==> !line_gives(#[trigger] ls[k], d),
    ensures
        match result_of(with_lines(path, ls)->Ok_0, d, qtype) {
            QueryResult::A(ip) => qtype == 1 && line_address(ls[i]) == Some(IpAddr::V4(ip)),
            QueryResult::Empty => qtype != 1,
            QueryResult::NxDomain => false,
        },
{
    last_line_counts(path, ls, i, d);
}

/// A question for a domain that stands in no line of the file is told that there
/// is no such domain. Names below a domain of the file are no exception.
pub proof fn other_domains_are_denied(
    path: Seq<char>,
    ls: Seq<Seq<char>>,
    d: Seq<char>,
    qtype: u16,
)
    requires
        with_lines(path, ls) is Ok,
        forall|k: int| 0 <= k < ls.len() ==> !line_gives(#[trigger] ls[k], d),
    ensures
        result_of(with_lines(path, ls)->Ok_0, d, qtype) is NxDomain,
{
    other_domains_are_unknown(path, ls, d);
}

/// A file is refused where a line that counts does not start with an IPv4
/// address: an IPv6 address is none.
pub proof fn only_ipv4_is_taken(path: Seq<char>, ls: Seq<Seq<char>>, i: int)
    requires
        0 <= i < ls.len(),
        line_content(ls[i]).len() > 0,
        !(line_address(ls[i]) matches Some(IpAddr::V4(_))),
    ensures
        with_lines(path, ls) is Err,
    decreases ls.len(),
{
    if i < ls.len() - 1 {
        assert(ls.drop_last()[i] == ls[i]);
        only_ipv4_is_taken(path, ls.drop_last(), i);
    }
}

proof fn wildcard_among_domains(
    place: Seq<char>,
    ip: Ipv4Addr,
    ds: Seq<Seq<char>>,
    map: Map<Seq<char>, Ipv4Addr>,
    j: int,
)
    requires
        0 <= j < ds.len(),
        plain_domain(ds[j]).len() == 0 || plain_domain(ds[j]).contains('*'),
    ensures
        with_domains(place, ip, ds, map) is Err,
    decreases ds.len(),
{
    if j < ds.len() - 1 {
        assert(ds.drop_last()[j] == ds[j]);
        wildcard_among_domains(place, ip, ds.drop_last(), map, j);
    }
}

/// A file is refused where a domain with a `*` anywhere in it, or one of which
/// nothing remains, stands in a line that counts.
pub proof fn wildcards_are_refused(path: Seq<char>, ls: Seq<Seq<char>>, i: int, d: Seq<char>)
    requires
        0 <= i < ls.len(),
        line_gives(ls[i], d),
        d.len() == 0 || d.contains('*'),
    ensures
        with_lines(path, ls) is Err,
    decreases ls.len(),
{
    let before = ls.drop_last();
    if i < ls.len() - 1 {
        assert(before[i] == ls[i]);
        wildcards_are_refused(path, before, i, d);
    } else if let Ok(map) = with_lines(path, before) {
        let parts = words(line_content(ls[i]));
        let j = choose|j: int| 1 <= j < parts.len() && plain_domain(#[trigger] parts[j]) == d;
        if let Some(IpAddr::V4(ip)) = ip_text(parts[0]) {
            let ds = parts.subrange(1, parts.len() as int);
            assert(ds[j - 1] == parts[j]);
            wildcard_among_domains(at_line(path, ls.len()), ip, ds, map, j - 1);
        }
    }
}

/// A response with an address says that it has one answer, and ends with the
/// time that it may be kept, the size of the address, and the address.
pub proof fn response_carries_the_address(msg: Seq<u8>, q: QueryView, ip: Ipv4Addr, ttl: u32)
    requires
        12 <= q.question_end <= msg.len(),
    ensures
        ({
            let r = response_bytes(msg, q, QueryResult::A(ip), ttl);
            &&& r.len() == q.question_end + 16
            &&& at16(r, 6) == 1
            &&& r.subrange(r.len() - 10, r.len() as int) == be32(ttl) + be16(4) + be32(ip.bits)
        }),
{
    let r = response_bytes(msg, q, QueryResult::A(ip), ttl);
    assert(r[6] == 0u8 && r[7] == 1u8);
    assert(r.subrange(r.len() - 10, r.len() as int) =~= be32(ttl) + be16(4) + be32(ip.bits));
}

// ---------------------------------------------------------------------------
// Files in order
// ---------------------------------------------------------------------------

proof fn first_part_is_cut(raw: Seq<char>, sep: char)
    ensures
        split_parts(raw, sep)[0] == up_to(raw, sep),
{
    let a = up_to(raw, sep);
    up_to_is_prefix(raw, sep);
    up_to_lacks(raw, sep);
    if a.len() < raw.len() {
        let b = raw.subrange(a.len() as int + 1, raw.len() as int);
        assert(raw =~= a + seq![sep] + b);
        parts_on_both_sides(a, b, sep);
    } else {
        assert(a =~= raw);
    }
    whole_is_one_part(a, sep);
}

proof fn up_to_lacks(s: Seq<char>, c: char)
    ensures
        !up_to(s, c).contains(c),
    decreases s.len(),
{
    let u = up_to(s, c);
    if u.contains(c) {
        let i = choose|i: int| 0 <= i < u.len() && u[i] == c;
        up_to_lacks(s.drop_first(), c);
        if i > 0 {
            assert(up_to(s.drop_first(), c)[i - 1] == c);
        }
    }
}

/// What counts of a line is what stands before the first `#`, without the white
/// space round it.
pub proof fn line_counts_up_to_the_remark(raw: Seq<char>)
    ensures
        line_content(raw) == trimmed(up_to(raw, '#')),
{
    first_part_is_cut(raw, '#');
}

/// A domain is looked up without white space round it, without dots at its end,
/// and in lower case; the rest of it stays.
pub proof fn domain_in_plain_form(
    before: Seq<char>,
    domain: Seq<char>,
    dots: Seq<char>,
    after: Seq<char>,
)
    requires
        forall|i: int| 0 <= i < before.len() ==> white(#[trigger] before[i]),
        forall|i: int| 0 <= i < after.len() ==> white(#[trigger] after[i]),
        forall|i: int| 0 <= i < dots.len() ==> #[trigger] dots[i] == '.',
        domain.len() > 0 && !white(domain[0]) && !white(domain.last()) && domain.last() != '.',
    ensures
        plain_domain(before + domain + dots + after) == ascii_lowercase(domain),
{
    let t = domain + dots;
    assert(before + domain + dots + after =~= before + t + after);
    if dots.len() > 0 {
        assert(dots[dots.len() - 1] == '.');
        assert(t[t.len() - 1] == '.');
    } else {
        assert(t =~= domain);
    }
    white_ends_are_trimmed(before, t, after);
    trailing_run_is_cut(domain, dots, '.');
}

/// Whether a word is a domain that can be looked up: something is left of it
/// without white space and dots at its end, and no star stands in it.
pub open spec fn is_exact(word: Seq<char>) -> bool {
    without_trailing(trimmed(word), '.').len() > 0 && !without_trailing(
        trimmed(word),
        '.',
    ).contains('*')
}

proof fn exact_in_plain_form(word: Seq<char>)
    ensures
        is_exact(word) <==> plain_domain(word).len() > 0 && !plain_domain(word).contains('*'),
{
    let t = without_trailing(trimmed(word), '.');
    let l = ascii_lowercase(t);
    if t.contains('*') {
        let i = choose|i: int| 0 <= i < t.len() && t[i] == '*';
        assert(l[i] == '*');
    }
    if l.contains('*') {
        let i = choose|i: int| 0 <= i < l.len() && l[i] == '*';
        assert(t[i] == '*');
    }
}

/// Whether a line is in order: an IPv4 address and at least one domain that can
/// be looked up, and nothing else before the remark.
pub open spec fn in_order(raw: Seq<char>) -> bool {
    let parts = words(trimmed(up_to(raw, '#')));
    &&& parts.len() >= 2
    &&& ip_text(parts[0]) matches Some(IpAddr::V4(_))
    &&& forall|j: int| 1 <= j < parts.len() ==> is_exact(#[trigger] parts[j])
}

proof fn exact_domains_are_added(
    place: Seq<char>,
    ip: Ipv4Addr,
    ds: Seq<Seq<char>>,
    map: Map<Seq<char>, Ipv4Addr>,
)
    requires
        forall|j: int| 0 <= j < ds.len() ==> is_exact(#[trigger] ds[j]),
    ensures
        with_domains(place, ip, ds, map) is Ok,
        ds.len() > 0 ==> with_domains(place, ip, ds, map)->Ok_0.contains_key(
            plain_domain(ds.last()),
        ),
    decreases ds.len(),
{
    if ds.len() > 0 {
        let before = ds.drop_last();
        assert forall|j: int| 0 <= j < before.len() implies is_exact(#[trigger] before[j]) by {
            assert(before[j] == ds[j]);
        }
        exact_domains_are_added(place, ip, before, map);
        assert(is_exact(ds[ds.len() - 1]));
        exact_in_plain_form(ds.last());
    }
}

proof fn lines_in_order_load(path: Seq<char>, ls: Seq<Seq<char>>, some: int)
    requires
        forall|i: int|
            0 <= i < ls.len() ==> trimmed(up_to(#[trigger] ls[i], '#')).len() == 0 || in_order(
                ls[i],
            ),
    ensures
        with_lines(path, ls) is Ok,
        0 <= some < ls.len() && trimmed(up_to(ls[some], '#')).len() > 0 ==> with_lines(
            path,
            ls,
        )->Ok_0 != Map::<Seq<char>, Ipv4Addr>::empty(),
    decreases ls.len(),
{
    if ls.len() > 0 {
        let before = ls.drop_last();
        assert forall|i: int| 0 <= i < before.len() implies trimmed(
            up_to(#[trigger] before[i], '#'),
        ).len() == 0 || in_order(before[i]) by {
            assert(before[i] == ls[i]);
        }
        lines_in_order_load(path, before, some);
        let raw = ls[ls.len() - 1];
        assert(trimmed(up_to(raw, '#')).len() == 0 || in_order(raw));
        line_counts_up_to_the_remark(raw);
        if line_content(raw).len() > 0 {
            let parts = words(line_content(raw));
            let ds = parts.subrange(1, parts.len() as int);
            assert forall|j: int| 0 <= j < ds.len() implies is_exact(#[trigger] ds[j]) by {
                assert(ds[j] == parts[j + 1]);
            }
            let m = with_lines(path, before)->Ok_0;
            if let Some(IpAddr::V4(ip)) = ip_text(parts[0]) {
                exact_domains_are_added(at_line(path, ls.len()), ip, ds, m);
                assert(with_lines(path, ls)->Ok_0.contains_key(plain_domain(ds.last())));
            }
        } else if 0 <= some < before.len() {
            assert(before[some] == ls[some]);
        }
    }
}

/// A file loads where each line that counts starts with an IPv4 address and goes
/// on with at least one domain, none of these is empty or holds a star, and
/// there is such a line.
pub proof fn file_in_order_loads(path: Seq<char>, contents: Seq<char>, some: int)
    requires
        forall|i: int|
            0 <= i < text_lines(contents).len() ==> trimmed(
                up_to(#[trigger] text_lines(contents)[i], '#'),
            ).len() == 0 || in_order(text_lines(contents)[i]),
        0 <= some < text_lines(contents).len(),
        trimmed(up_to(text_lines(contents)[some], '#')).len() > 0,
    ensures
        loaded(path, contents) is Ok,
{
    lines_in_order_load(path, text_lines(contents), some);
}

/// A file is refused at its first line that counts and is not in order. The
/// message names the line, counted from one, and what is wrong: too few words,
/// an address that is not IPv4, or the first domain that is empty or holds a
/// star.
pub proof fn first_bad_line_is_told(path: Seq<char>, contents: Seq<char>, i: int)
    requires
        0 <= i < text_lines(contents).len(),
        trimmed(up_to(text_lines(contents)[i], '#')).len() > 0,
        !in_order(text_lines(contents)[i]),
        forall|k: int|
            0 <= k < i ==> trimmed(up_to(#[trigger] text_lines(contents)[k], '#')).len() == 0
                || in_order(text_lines(contents)[k]),
    ensures
        ({
            let parts = words(trimmed(up_to(text_lines(contents)[i], '#')));
            let place = path + seq![':'] + decimal((i + 1) as nat);
            &&& parts.len() < 2 ==> loaded(path, contents) == Err::<
                Map<Seq<char>, Ipv4Addr>,
                Seq<char>,
            >(place + " must be '<ip> <domain> [domain...]'"@)
            &&& parts.len() >= 2 && !(ip_text(parts[0]) matches Some(IpAddr::V4(_))) ==> loaded(
                path,
                contents,
            ) == Err::<Map<Seq<char>, Ipv4Addr>, Seq<char>>(
                place + " invalid IPv4 '"@ + parts[0] + "': invalid IPv4 address syntax"@,
            )
            &&& parts.len() >= 2 && (ip_text(parts[0]) matches Some(IpAddr::V4(_))) ==> exists|
                j: int,
            |
                1 <= j < parts.len() && !is_exact(#[trigger] parts[j]) && (forall|k: int|
                    1 <= k < j ==> is_exact(#[trigger] parts[k])) && loaded(path, contents)
                    == Err::<Map<Seq<char>, Ipv4Addr>, Seq<char>>(
                    place + " numa-dev supports exact IPv4 domains only: "@ + plain_domain(
                        parts[j],
                    ),
                )
        }),
{
    let ls = text_lines(contents);
    let raw = ls[i];
    let parts = words(trimmed(up_to(raw, '#')));
    let upto = ls.subrange(0, i);
    assert forall|k: int| 0 <= k < upto.len() implies trimmed(
        up_to(#[trigger] upto[k], '#'),
    ).len() == 0 || in_order(upto[k]) by {
        assert(upto[k] == text_lines(contents)[k]);
    }
    lines_in_order_load(path, upto, 0);
    line_counts_up_to_the_remark(raw);
    let here = ls.subrange(0, i + 1);
    assert(here.drop_last() =~= upto);
    assert(here.last() == raw);
    reveal_strlit(":");
    assert(":"@ =~= seq![':']);
    let place = path + seq![':'] + decimal((i + 1) as nat);
    assert(at_line(path, here.len()) == place);
    fault_stays(path, ls, i + 1);
    if parts.len() >= 2 {
        reveal_strlit("': ");
        reveal_strlit("invalid IPv4 address syntax");
        reveal_strlit("': invalid IPv4 address syntax");
        assert("': "@ + "invalid IPv4 address syntax"@ =~= "': invalid IPv4 address syntax"@);
        let a = place + " invalid IPv4 '"@ + parts[0];
        assert(a + "': "@ + "invalid IPv4 address syntax"@ =~= a + ("': "@
            + "invalid IPv4 address syntax"@));
        if let Some(IpAddr::V4(ip)) = ip_text(parts[0]) {
            let ds = parts.subrange(1, parts.len() as int);
            let j = first_inexact(parts, 1);
            assert forall|k: int| 0 <= k < j - 1 implies is_exact(#[trigger] ds[k]) by {
                assert(ds[k] == parts[k + 1]);
            }
            assert(ds[j - 1] == parts[j]);
            inexact_domain_is_told(place, ip, ds, j - 1, with_lines(path, upto)->Ok_0);
        }
    }
}

proof fn first_inexact(parts: Seq<Seq<char>>, from: int) -> (j: int)
    requires
        0 <= from,
        exists|j: int| from <= j < parts.len() && !is_exact(#[trigger] parts[j]),
    ensures
        from <= j < parts.len(),
        !is_exact(parts[j]),
        forall|k: int| from <= k < j ==> is_exact(#[trigger] parts[k]),
    decreases parts.len() - from,
{
    if is_exact(parts[from]) {
        first_inexact(parts, from + 1)
    } else {
        from
    }
}

proof fn fault_stays(path: Seq<char>, ls: Seq<Seq<char>>, n: int)
    requires
        0 <= n <= ls.len(),
    ensures
        with_lines(path, ls.subrange(0, n)) matches Err(m) ==> with_lines(path, ls) == Err::<
            Map<Seq<char>, Ipv4Addr>,
            Seq<char>,
        >(m),
    decreases ls.len(),
{
    if n < ls.len() {
        fault_stays(path, ls.drop_last(), n);
        assert(ls.drop_last().subrange(0, n) =~= ls.subrange(0, n));
    } else {
        assert(ls.subrange(0, n) =~= ls);
    }
}

proof fn inexact_domain_is_told(
    place: Seq<char>,
    ip: Ipv4Addr,
    ds: Seq<Seq<char>>,
    j: int,
    map: Map<Seq<char>, Ipv4Addr>,
)
    requires
        0 <= j < ds.len(),
        !is_exact(ds[j]),
        forall|k: int| 0 <= k < j ==> is_exact(#[trigger] ds[k]),
    ensures
        with_domains(place, ip, ds, map) == Err::<Map<Seq<char>, Ipv4Addr>, Seq<char>>(
            place + " numa-dev supports exact IPv4 domains only: "@ + plain_domain(ds[j]),
        ),
    decreases ds.len(),
{
    let before = ds.drop_last();
    assert forall|k: int| 0 <= k < j implies is_exact(#[trigger] before[k]) by {
        assert(before[k] == ds[k]);
    }
    if j < ds.len() - 1 {
        assert(before[j] == ds[j]);
        inexact_domain_is_told(place, ip, before, j, map);
    } else {
        exact_domains_are_added(place, ip, before, map);
        exact_in_plain_form(ds[j]);
    }
}

/// A file in which no line counts is refused as one without domains.
pub proof fn file_of_remarks_is_refused(path: Seq<char>, contents: Seq<char>)
    requires
        forall|i: int|
            0 <= i < text_lines(contents).len() ==> trimmed(
                up_to(#[trigger] text_lines(contents)[i], '#'),
            ).len() == 0,
    ensures
        loaded(path, contents) == Err::<Map<Seq<char>, Ipv4Addr>, Seq<char>>(
            "no domains found in "@ + path,
        ),
{
    remarks_add_nothing(path, text_lines(contents));
}

proof fn remarks_add_nothing(path: Seq<char>, ls: Seq<Seq<char>>)
    requires
        forall|i: int| 0 <= i < ls.len() ==> trimmed(up_to(#[trigger] ls[i], '#')).len() == 0,
    ensures
        with_lines(path, ls) == Ok::<Map<Seq<char>, Ipv4Addr>, Seq<char>>(Map::empty()),
    decreases ls.len(),
{
    if ls.len() > 0 {
        let before = ls.drop_last();
        assert forall|i: int| 0 <= i < before.len() implies trimmed(
            up_to(#[trigger] before[i], '#'),
        ).len() == 0 by {
            assert(before[i] == ls[i]);
        }
        remarks_add_nothing(path, before);
        line_counts_up_to_the_remark(ls.last());
        assert(ls.last() == ls[ls.len() - 1]);
    }
}

// ---------------------------------------------------------------------------
// Queries and responses
// ---------------------------------------------------------------------------

/// A known domain has its address for the type A, and nothing for any other; an
/// unknown one does not exist.
pub proof fn result_by_domain_and_type(
    entries: Map<Seq<char>, Ipv4Addr>,
    domain: Seq<char>,
    qtype: u16,
)
    ensures
        entries.contains_key(domain) && qtype == 1 ==> result_of(entries, domain, qtype)
            == QueryResult::A(entries[domain]),
        entries.contains_key(domain) && qtype != 1 ==> result_of(entries, domain, qtype) is Empty,
        !entries.contains_key(domain) ==> result_of(entries, domain, qtype) is NxDomain,
{
}

/// A response has the id of the query, says that it is one and authoritative, and
/// whether recursion was asked for; its outcome is success, or that the domain
/// does not exist. It has the question of the query, and one answer where there
/// is an address: the name of the question, type and class 1, the time to live
/// and the four bytes of the address.
pub proof fn bytes_of_a_dev_response(msg: Seq<u8>, q: QueryView, result: QueryResult, ttl: u32)
    requires
        12 <= q.question_end <= msg.len(),
    ensures
        ({
            let r = response_bytes(msg, q, result, ttl);
            let end = q.question_end;
            &&& r[0] * 0x100 + r[1] == q.id
            &&& r[2] == (if q.rd {
                0x85u8
            } else {
                0x84u8
            })
            &&& r[3] == (if result is NxDomain {
                3u8
            } else {
                0u8
            })
            &&& r[4] == 0 && r[5] == 1
            &&& r[6] == 0 && r[7] == (if result is A {
                1u8
            } else {
                0u8
            })
            &&& r[8] == 0 && r[9] == 0 && r[10] == 0 && r[11] == 0
            &&& r.subrange(12, end) == msg.subrange(12, end)
            &&& !(result is A) ==> r.len() == end
            &&& result matches QueryResult::A(ip) ==> r.subrange(end, r.len() as int) == seq![
                0xc0u8,
                12,
                0,
                1,
                0,
                1,
            ] + be32(ttl) + seq![0u8, 4] + be32(ip.bits)
        }),
{
    let r = response_bytes(msg, q, result, ttl);
    let end = q.question_end;
    assert(r.subrange(12, end) =~= msg.subrange(12, end));
    assert(be16(1) =~= seq![0u8, 1]);
    assert(be16(4) =~= seq![0u8, 4]);
    assert(be16(0) =~= seq![0u8, 0]);
    if let QueryResult::A(ip) = result {
        assert(r.subrange(end, r.len() as int) =~= seq![0xc0u8, 12, 0, 1, 0, 1] + be32(ttl) + seq![
            0u8,
            4,
        ] + be32(ip.bits));
    }
}

/// The labels of a name are read one after the other, each behind its length, to
/// a length of zero. A length of 192 or more leads on to where the rest stands,
/// at most eight times.
pub proof fn labels_are_read_in_turn(msg: Seq<u8>, p: int, jumps: int)
    requires
        0 <= p < msg.len(),
        0 <= jumps <= 8,
    ensures
        msg[p] == 0 ==> labels_at(msg, p, jumps) == Ok::<Seq<Seq<char>>, Seq<char>>(Seq::empty()),
        1 <= msg[p] <= 63 && p + 1 + msg[p] <= msg.len() && valid_utf8(
            msg.subrange(p + 1, p + 1 + msg[p]),
        ) ==> (labels_at(msg, p + 1 + msg[p], jumps) matches Ok(rest) ==> labels_at(msg, p, jumps)
            == Ok::<Seq<Seq<char>>, Seq<char>>(
            seq![decode_utf8(msg.subrange(p + 1, p + 1 + msg[p]))] + rest,
        )),
        msg[p] >= 192 && p + 1 < msg.len() && jumps < 8 ==> labels_at(msg, p, jumps) == labels_at(
            msg,
            (msg[p] - 192) * 0x100 + msg[p + 1],
            jumps + 1,
        ),
        msg[p] >= 192 && p + 1 < msg.len() && jumps == 8 ==> labels_at(msg, p, jumps) is Err,
        64 <= msg[p] <= 191 ==> labels_at(msg, p, jumps) is Err,
{
}

/// A query has its id in its first two bytes and the wish for recursion in the
/// lowest bit of the third. Its question is the name that starts at the
/// thirteenth byte, in the form in which domains are looked up, and the type
/// behind it.
pub proof fn query_of_a_message(msg: Seq<u8>, labels: Seq<Seq<char>>, end: int)
    requires
        msg.len() >= 12,
        msg[4] * 0x100 + msg[5] > 0,
        labels_at(msg, 12, 0) == Ok::<Seq<Seq<char>>, Seq<char>>(labels),
        name_skip(msg, 12) == Some(end),
        0 <= end,
        end + 4 <= msg.len(),
    ensures
        query_of(msg) matches Ok(q) && q.id == msg[0] * 0x100 + msg[1] && q.rd == (msg[2] % 2 == 1)
            && q.domain == plain_domain(joined(labels, seq!['.'])) && q.qtype == msg[end] * 0x100
            + msg[end + 1] && q.question_end == end + 4,
{
    reveal_strlit(".");
    assert("."@ =~= seq!['.']);
    assert(at16(msg, 4) > 0);
}

/// A message that is shorter than a header, has no question or breaks off within
/// its question is refused.
pub proof fn broken_messages_are_refused(msg: Seq<u8>)
    ensures
        msg.len() < 12 ==> query_of(msg) is Err,
        msg.len() >= 12 && msg[4] == 0 && msg[5] == 0 ==> query_of(msg) is Err,
        msg.len() >= 12 && labels_at(msg, 12, 0) is Err ==> query_of(msg) is Err,
        name_skip(msg, 12) matches Some(end) && end + 4 > msg.len() ==> query_of(msg) is Err,
{
}

// ---------------------------------------------------------------------------
// Options
// ---------------------------------------------------------------------------

/// Options are taken one after the other, each with the word behind it, and a
/// later one counts instead of an earlier one of its kind.
pub proof fn options_are_taken_in_turn(args: Seq<Seq<char>>, i: int, o: OptionsView, n: nat)
    requires
        0 <= i,
        i + 1 < args.len(),
    ensures
        asked(args, args.len() as int, o) == Asked::Run(o),
        args[i] == "--domains"@ ==> asked(args, i, o) == asked(
            args,
            i + 2,
            OptionsView { domains_path: args[i + 1], bind: o.bind, ttl: o.ttl },
        ),
        args[i] == "--ttl"@ && args[i + 1] == decimal(n) && n <= u32::MAX ==> asked(args, i, o)
            == asked(
            args,
            i + 2,
            OptionsView { domains_path: o.domains_path, bind: o.bind, ttl: n as u32 },
        ),
        args[i] == "--bind"@ ==> match socket_text(args[i + 1]) {
            Some(bind) => asked(args, i, o) == asked(
                args,
                i + 2,
                OptionsView { domains_path: o.domains_path, bind, ttl: o.ttl },
            ),
            None => asked(args, i, o) == Asked::BadAddress(args[i + 1]),
        },
        args[i] == "--help"@ || args[i] == "-h"@ ==> asked(args, i, o) is Help,
{
    reveal_strlit("--domains");
    reveal_strlit("--bind");
    reveal_strlit("--ttl");
    reveal_strlit("--help");
    reveal_strlit("-h");
    assert("--domains"@.len() == 9 && "--bind"@.len() == 6 && "--ttl"@.len() == 5);
    assert("--help"@.len() == 6 && "--help"@[2] == 'h' && "--bind"@[2] == 'b');
    assert("-h"@.len() == 2);
    numbers_are_read(n, decimal(n));
}

/// Without options the file is `dev-domains.txt`, the address 127.0.0.2 at port
/// 53, and the time to live a minute.
pub proof fn options_without_arguments()
    ensures
        asked(Seq::empty(), 0, default_options()) == Asked::Run(default_options()),
        default_options().domains_path == "dev-domains.txt"@,
        default_options().bind.ip == IpAddr::V4(Ipv4Addr { bits: v4_bits(127, 0, 0, 2) }),
        default_options().bind.port == 53,
        default_options().ttl == 60,
{
}

} // verus!
