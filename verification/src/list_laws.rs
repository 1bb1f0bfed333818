//! What lists of domains and of networks decide: which lines name a domain,
//! which names are blocked, and which clients and addresses are meant.
use vstd::prelude::*;

use crate::acl::{entry_net, AllowFromAcl, CidrMatcher};
use crate::blocklist::{listed_domain, listed_domains, BlocklistStore};
use crate::client_policy::{
    decision_from, filter_from, list_names, normalized_set, ClientPolicy, ClientPolicyConfig,
};
use crate::domain_list::{
    covered, nearest, nearest_covers, normalized, parent, parent_is_shorter, under,
    under_parent, DomainListView,
};
use crate::name_set::text_less;
use crate::net::{ip_text, net_text, IpAddr, IpNet};
use crate::packet::PacketView;
use crate::rebind::{
    acted_on, cleaned_record, default_ranges, exposed, packet_acted_on, scrubbed, scrubbed_packet,
};
use crate::record::{RdataView, RecordView};
use crate::shape::hints_alone_differ;
use crate::svcb::{edited_rdata, without_private};
use crate::text::{
    all_ascii, ascii_lower, ascii_lowercase, has_prefix, has_suffix, joined, lowercase, text_lines,
    texts, up_to, without_prefix, words,
};
use crate::text_laws::{
    cut_at_the_first, prefix_and_rest, prefix_or_whole, suffix_or_whole, trailing_run_is_cut,
};

verus! {

// ---------------------------------------------------------------------------
// Domains
// ---------------------------------------------------------------------------

/// A domain of ASCII letters is put in lower case and loses the dots at its end,
/// and nothing else.
pub proof fn normal_form_of_a_domain(domain: Seq<char>, dots: Seq<char>)
    requires
        forall|i: int| 0 <= i < domain.len() ==> (#[trigger] domain[i]) as u32 <= 127,
        forall|i: int| 0 <= i < dots.len() ==> #[trigger] dots[i] == '.',
        domain.len() == 0 || domain.last() != '.',
    ensures
        normalized(domain + dots) == ascii_lowercase(domain),
{
    let s = domain + dots;
    assert(all_ascii(s)) by {
        assert forall|i: int| 0 <= i < s.len() implies (#[trigger] s[i]) as u32 <= 127 by {
            if i < domain.len() {
                assert(s[i] == domain[i]);
            } else {
                assert(s[i] == dots[i - domain.len()]);
            }
        }
    }
    assert(ascii_lowercase(s) =~= ascii_lowercase(domain) + dots) by {
        assert forall|i: int| 0 <= i < s.len() implies #[trigger] ascii_lowercase(s)[i] == (
        ascii_lowercase(domain) + dots)[i] by {
            if i >= domain.len() {
                assert(s[i] == dots[i - domain.len()]);
            }
        }
    }
    if domain.len() > 0 {
        assert(ascii_lowercase(domain)[domain.len() - 1] == ascii_lower(domain.last()));
    }
    trailing_run_is_cut(ascii_lowercase(domain), dots, '.');
}

/// The parent of a domain is what stands behind its first dot.
pub proof fn parent_is_behind_the_dot(label: Seq<char>, rest: Seq<char>)
    requires
        !label.contains('.'),
    ensures
        parent(label) is None,
        parent(label + seq!['.'] + rest) == Some(rest),
    decreases label.len(),
{
    let s = label + seq!['.'] + rest;
    if label.len() > 0 {
        let l = label.drop_first();
        assert(label.contains(label[0]));
        assert(!l.contains('.')) by {
            if l.contains('.') {
                let i = choose|i: int| 0 <= i < l.len() && l[i] == '.';
                assert(label[i + 1] == '.');
            }
        }
        parent_is_behind_the_dot(l, rest);
        assert(s.drop_first() =~= l + seq!['.'] + rest);
    } else {
        assert(s.drop_first() =~= rest);
    }
}

/// Whether an entry stands for a domain: it is the domain, or the domain is a
/// name below it.
pub open spec fn stands_for(entry: Seq<char>, domain: Seq<char>) -> bool {
    entry == domain || exists|front: Seq<char>| domain == #[trigger] (front + seq!['.'] + entry)
}

/// A domain is under an entry where the entry stands for it.
pub proof fn standing_is_under(entry: Seq<char>, domain: Seq<char>)
    ensures
        stands_for(entry, domain) <==> under(domain, entry),
{
    let tail = seq!['.'] + entry;
    suffix_or_whole(domain, tail);
    if has_suffix(domain, tail) {
        let front = choose|rest: Seq<char>| domain == #[trigger] (rest + tail);
        assert(domain =~= front + seq!['.'] + entry);
    }
    if exists|front: Seq<char>| domain == #[trigger] (front + seq!['.'] + entry) {
        let front = choose|front: Seq<char>| domain == #[trigger] (front + seq!['.'] + entry);
        assert(domain =~= front + tail);
    }
}

proof fn covering_stands(domain: Seq<char>, set: Set<Seq<char>>)
    ensures
        nearest(domain, set) is Some <==> exists|e: Seq<char>|
            set.contains(e) && #[trigger] stands_for(e, domain),
        nearest(domain, set) matches Some(e) ==> set.contains(e) && stands_for(e, domain),
        covered(domain, set) <==> nearest(domain, set) is Some,
{
    nearest_covers(domain, set);
    if let Some(e) = nearest(domain, set) {
        standing_is_under(e, domain);
    }
    if exists|e: Seq<char>| set.contains(e) && #[trigger] stands_for(e, domain) {
        let e = choose|e: Seq<char>| set.contains(e) && #[trigger] stands_for(e, domain);
        standing_is_under(e, domain);
    }
}

proof fn nearest_is_longest(domain: Seq<char>, set: Set<Seq<char>>, e: Seq<char>)
    requires
        set.contains(e),
        under(domain, e),
    ensures
        nearest(domain, set) matches Some(n) && n.len() >= e.len(),
    decreases domain.len(),
{
    under_parent(domain, e);
    parent_is_shorter(domain);
    if !set.contains(domain) {
        if let Some(p) = parent(domain) {
            nearest_is_longest(p, set, e);
        }
    }
}

/// A domain is found in a list where the list has it or a name above it. What
/// is found is such an entry; entries of the configuration come first, and of
/// those of one kind the longest.
pub proof fn found_entry_stands_for_it(list: DomainListView, domain: Seq<char>, other: Seq<char>)
    ensures
        list.found(domain) is Some <==> exists|e: Seq<char>|
            (list.config.contains(e) || list.user.contains(e)) && #[trigger] stands_for(e, domain),
        list.found(domain) matches Some(e) ==> {
            &&& list.config.contains(e) || list.user.contains(e)
            &&& stands_for(e, domain)
            &&& list.config.contains(other) && stands_for(other, domain) ==> list.config.contains(
                e,
            ) && other.len() <= e.len()
            &&& list.user.contains(other) && stands_for(other, domain) ==> list.config.contains(e)
                || other.len() <= e.len()
        },
        list.covers(domain) <==> exists|e: Seq<char>|
            (list.config.contains(e) || list.user.contains(e)) && #[trigger] stands_for(
                e,
                normalized(domain),
            ),
{
    covering_stands(domain, list.config);
    covering_stands(domain, list.user);
    let d = normalized(domain);
    covering_stands(d, list.all());
    if exists|e: Seq<char>|
        (list.config.contains(e) || list.user.contains(e)) && #[trigger] stands_for(e, d) {
        let e = choose|e: Seq<char>|
            (list.config.contains(e) || list.user.contains(e)) && #[trigger] stands_for(e, d);
        assert(list.all().contains(e));
    }
    if let Some(e) = nearest(d, list.all()) {
        assert(list.all().contains(e));
    }
    standing_is_under(other, domain);
    if list.config.contains(other) && under(domain, other) {
        nearest_is_longest(domain, list.config, other);
    }
    if list.user.contains(other) && under(domain, other) {
        nearest_is_longest(domain, list.user, other);
    }
}

/// What is added to a list is in it, what is removed is not, every other entry
/// stays, and what the configuration lists is not removed.
pub proof fn entries_come_and_go(list: DomainListView, domain: Seq<char>, other: Seq<char>)
    requires
        other != normalized(domain),
    ensures
        ({
            let d = normalized(domain);
            let added = list.with_user(domain);
            let seeded = list.with_config(domain);
            let removed = list.without_user(domain);
            &&& added.config == list.config
            &&& added.config.contains(d) || added.user.contains(d)
            &&& !list.config.contains(d) ==> added.user.contains(d)
            &&& list.config.contains(d) ==> added == list
            &&& added.user.contains(other) <==> list.user.contains(other)
            &&& seeded.config.contains(d)
            &&& !seeded.user.contains(d)
            &&& seeded.config.contains(other) <==> list.config.contains(other)
            &&& seeded.user.contains(other) <==> list.user.contains(other)
            &&& removed.config == list.config
            &&& !removed.user.contains(d)
            &&& removed.user.contains(other) <==> list.user.contains(other)
        }),
{
}

/// Seeds become entries of the configuration, in normal form, and no others do.
pub proof fn seeds_are_configured(list: DomainListView, seeds: Seq<Seq<char>>, e: Seq<char>)
    ensures
        list.with_seeds(seeds).config.contains(e) <==> list.config.contains(e) || exists|i: int|
            0 <= i < seeds.len() && normalized(#[trigger] seeds[i]) == e,
        list.with_seeds(seeds).user.contains(e) <==> list.user.contains(e) && !(exists|i: int|
            0 <= i < seeds.len() && normalized(#[trigger] seeds[i]) == e),
    decreases seeds.len(),
{
    if seeds.len() > 0 {
        let before = seeds.drop_last();
        seeds_are_configured(list, before, e);
        if exists|i: int| 0 <= i < seeds.len() && normalized(#[trigger] seeds[i]) == e {
            let i = choose|i: int| 0 <= i < seeds.len() && normalized(#[trigger] seeds[i]) == e;
            if i < seeds.len() - 1 {
                assert(before[i] == seeds[i]);
            } else {
                assert(seeds.last() == seeds[i]);
            }
        }
        if exists|i: int| 0 <= i < before.len() && normalized(#[trigger] before[i]) == e {
            let i = choose|i: int| 0 <= i < before.len() && normalized(#[trigger] before[i]) == e;
            assert(seeds[i] == before[i]);
        }
        assert(seeds[seeds.len() - 1] == seeds.last());
    }
}

// ---------------------------------------------------------------------------
// Blocklists
// ---------------------------------------------------------------------------

/// A line of a list names its first word, or its second behind an address that
/// leads nowhere. A line that is empty or starts with `#` or `!` names nothing.
pub proof fn line_names_a_word(line: Seq<char>, other: Seq<char>)
    requires
        words(line).len() > 0 ==> words(line)[0].len() > 0,
    ensures
        ({
            let w = words(line);
            &&& w.len() == 0 ==> listed_domain(line) is None
            &&& w.len() > 0 && (w[0][0] == '#' || w[0][0] == '!') ==> listed_domain(line) is None
            &&& w.len() == 1 && words(other) == w ==> listed_domain(line) == listed_domain(other)
            &&& w.len() >= 2 && (w[0] == "0.0.0.0"@ || w[0] == "127.0.0.1"@ || w[0] == "::"@ || w[0]
                == "::1"@) && words(other) == seq![w[1]] && w[1].len() > 0 && w[1][0] != '#'
                && w[1][0] != '!' ==> listed_domain(line) == listed_domain(other)
            &&& w.len() >= 2 && w[0] != "0.0.0.0"@ && w[0] != "127.0.0.1"@ && w[0] != "::"@ && w[0]
                != "::1"@ && words(other) == seq![w[0]] ==> listed_domain(line) == listed_domain(
                other,
            )
        }),
{
    reveal_strlit("0.0.0.0");
    reveal_strlit("127.0.0.1");
    reveal_strlit("::");
    reveal_strlit("::1");
    assert("0.0.0.0"@[0] == '0' && "127.0.0.1"@[0] == '1' && "::"@[0] == ':' && "::1"@[0] == ':');
}

/// A word names the domain in it, in normal form, where that has a dot: the
/// domain stands alone, behind `||`, behind `*.` or behind both, and what
/// follows a `^` or a `$` does not count.
pub proof fn word_names_a_domain(
    line: Seq<char>,
    bars: Seq<char>,
    star: Seq<char>,
    domain: Seq<char>,
    mark: char,
    rest: Seq<char>,
)
    requires
        bars == seq!['|', '|'] || bars.len() == 0,
        star == seq!['*', '.'] || star.len() == 0,
        mark == '^' || mark == '$',
        domain.len() > 0,
        domain[0] != '|' && domain[0] != '*' && domain[0] != '#' && domain[0] != '!',
        !domain.contains('^') && !domain.contains('$'),
        words(line) == seq![bars + star + domain] || words(line) == seq![
            bars + star + domain + seq![mark] + rest,
        ],
    ensures
        normalized(domain).contains('.') ==> listed_domain(line) == Some(normalized(domain)),
        !normalized(domain).contains('.') ==> listed_domain(line) is None,
{
    reveal_strlit("||");
    reveal_strlit("*.");
    let two = seq!['|', '|'];
    let dot = seq!['*', '.'];
    assert("||"@ =~= two);
    assert("*."@ =~= dot);
    let w = words(line)[0];
    let inner = star + domain;
    let tail = if words(line) == seq![bars + star + domain] {
        Seq::<char>::empty()
    } else {
        seq![mark] + rest
    };
    assert(w =~= bars + (inner + tail));
    assert(inner[0] != '|');
    if bars.len() == 0 {
        assert(w =~= inner + tail);
        assert(w[0] == inner[0]);
        prefix_or_whole(w, two);
        if has_prefix(w, two) {
            assert(w.subrange(0, 2)[0] == two[0]);
        }
    } else {
        prefix_and_rest(two, inner + tail);
    }
    assert(without_prefix(w, two) == inner + tail);
    assert(!inner.contains('^') && !inner.contains('$')) by {
        if inner.contains('^') {
            let i = choose|i: int| 0 <= i < inner.len() && inner[i] == '^';
            assert(domain[i - star.len()] == '^');
        }
        if inner.contains('$') {
            let i = choose|i: int| 0 <= i < inner.len() && inner[i] == '$';
            assert(domain[i - star.len()] == '$');
        }
    }
    cut_at_the_first(inner, rest, '^');
    cut_at_the_first(inner, rest, '$');
    if tail.len() == 0 {
        assert(inner + tail =~= inner);
    } else {
        assert(inner + tail =~= inner + seq![mark] + rest);
        if mark == '$' {
            dollar_then_caret(inner, rest);
        }
    }
    assert(up_to(up_to(inner + tail, '^'), '$') == inner);
    if star.len() == 0 {
        assert(inner =~= domain);
        if has_prefix(inner, dot) {
            assert(inner.subrange(0, 2)[0] == dot[0]);
        }
    } else {
        prefix_and_rest(dot, domain);
    }
    assert(w[0] != '#' && w[0] != '!');
}

proof fn dollar_then_caret(inner: Seq<char>, rest: Seq<char>)
    requires
        !inner.contains('^'),
        !inner.contains('$'),
    ensures
        up_to(up_to(inner + seq!['$'] + rest, '^'), '$') == inner,
{
    let s = inner + seq!['$'] + rest;
    let a = up_to(s, '^');
    crate::net::up_to_is_prefix(s, '^');
    let r = up_to(rest, '^');
    let front = inner + seq!['$'];
    assert(!front.contains('^')) by {
        if front.contains('^') {
            let i = choose|i: int| 0 <= i < front.len() && front[i] == '^';
            if i < inner.len() {
                assert(inner[i] == '^');
            }
        }
    }
    cut_past(front, rest, '^');
    assert(a =~= inner + seq!['$'] + r);
    cut_at_the_first(inner, r, '$');
}

proof fn cut_past(front: Seq<char>, rest: Seq<char>, c: char)
    requires
        !front.contains(c),
    ensures
        up_to(front + rest, c) == front + up_to(rest, c),
    decreases front.len(),
{
    let s = front + rest;
    if front.len() == 0 {
        assert(s =~= rest);
        assert(front + up_to(rest, c) =~= up_to(rest, c));
    } else {
        let f = front.drop_first();
        assert(front.contains(front[0]));
        assert(!f.contains(c)) by {
            if f.contains(c) {
                let i = choose|i: int| 0 <= i < f.len() && f[i] == c;
                assert(front[i + 1] == c);
            }
        }
        cut_past(f, rest, c);
        assert(s.drop_first() =~= f + rest);
        assert(seq![front[0]] + (f + up_to(rest, c)) =~= front + up_to(rest, c));
    }
}

/// A list holds the domains that its lines name, and no others.
pub proof fn list_holds_what_lines_name(lines: Seq<Seq<char>>, d: Seq<char>)
    ensures
        listed_domains(lines).contains(d) <==> exists|i: int|
            0 <= i < lines.len() && listed_domain(#[trigger] lines[i]) == Some(d),
    decreases lines.len(),
{
    if lines.len() > 0 {
        let before = lines.drop_last();
        list_holds_what_lines_name(before, d);
        if exists|i: int| 0 <= i < lines.len() && listed_domain(#[trigger] lines[i]) == Some(d) {
            let i = choose|i: int|
                0 <= i < lines.len() && listed_domain(#[trigger] lines[i]) == Some(d);
            if i < lines.len() - 1 {
                assert(before[i] == lines[i]);
            }
        }
        if exists|i: int| 0 <= i < before.len() && listed_domain(#[trigger] before[i]) == Some(d) {
            let i = choose|i: int|
                0 <= i < before.len() && listed_domain(#[trigger] before[i]) == Some(d);
            assert(lines[i] == before[i]);
        }
        assert(lines.last() == lines[lines.len() - 1]);
    }
}

/// A name is blocked where blocking is on, an entry of the lists or one that was
/// added by hand stands for it, and no exception does. The rule that is told is
/// the exception or the entry.
pub proof fn blocked_where_listed(store: BlocklistStore, domain: Seq<char>)
    ensures
        ({
            let d = normalized(domain);
            let v = store.verdict(domain);
            let excepted = exists|e: Seq<char>|
                (store.exceptions@.config.contains(e) || store.exceptions@.user.contains(e))
                    && #[trigger] stands_for(e, d);
            let added = exists|e: Seq<char>|
                (store.extra@.config.contains(e) || store.extra@.user.contains(e))
                    && #[trigger] stands_for(e, d);
            let listed = exists|e: Seq<char>|
                store.domains@.contains(e) && #[trigger] stands_for(e, d);
            &&& v.blocked <==> store.enabled && !excepted && (added || listed)
            &&& v.rule is Some <==> store.enabled && (excepted || added || listed)
            &&& v.rule matches Some(e) ==> stands_for(e, d)
            &&& v.rule matches Some(e) ==> if excepted {
                store.exceptions@.config.contains(e) || store.exceptions@.user.contains(e)
            } else if added {
                store.extra@.config.contains(e) || store.extra@.user.contains(e)
            } else {
                store.domains@.contains(e)
            }
        }),
{
    let d = normalized(domain);
    found_entry_stands_for_it(store.exceptions@, d, d);
    found_entry_stands_for_it(store.extra@, d, d);
    covering_stands(d, store.domains@);
}

// ---------------------------------------------------------------------------
// Clients
// ---------------------------------------------------------------------------

/// An entry stands for the network that it writes, or else for the one address
/// that it writes.
pub proof fn entry_is_a_network_or_an_address(s: Seq<char>)
    ensures
        net_text(s) is Some ==> entry_net(s) == net_text(s),
        net_text(s) is None ==> match ip_text(s) {
            Some(IpAddr::V4(a)) => entry_net(s) == Some(IpNet::V4 { addr: a.bits, prefix: 32 }),
            Some(IpAddr::V6(a)) => entry_net(s) == Some(IpNet::V6 { addr: a.bits, prefix: 128 }),
            None => entry_net(s) is None,
        },
{
}

/// Networks match an address, in its canonical form, that one of them holds and
/// none of the excluded ones does.
pub proof fn matched_where_held(m: CidrMatcher, ip: IpAddr)
    ensures
        m.has(ip) <==> (exists|i: int|
            0 <= i < m.include_nets@.len() && (#[trigger] m.include_nets@[i]).has(ip.canonical()))
            && (forall|i: int|
            0 <= i < m.exclude_nets@.len() ==> !(#[trigger] m.exclude_nets@[i]).has(
                ip.canonical(),
            )),
{
}

/// A client may ask where no networks are listed, where it is on this machine,
/// or where a listed network holds it and no excluded one does. No other may.
pub proof fn permitted_where_listed(a: AllowFromAcl, peer: IpAddr)
    ensures
        a.permits(peer) <==> a.matcher.include_nets@.len() == 0 || peer.canonical().loopback() || ((
        exists|i: int|
            0 <= i < a.matcher.include_nets@.len() && (
            #[trigger] a.matcher.include_nets@[i]).has(peer.canonical())) && (forall|i: int|
            0 <= i < a.matcher.exclude_nets@.len() ==> !(
            #[trigger] a.matcher.exclude_nets@[i]).has(peer.canonical()))),
{
}

/// Whether a policy has something to say of a name asked by a client: the client
/// is not on this machine, the policy's networks match it, and its lists have an
/// entry for the name.
pub open spec fn speaks(p: ClientPolicy, peer: IpAddr, qname: Seq<char>) -> bool {
    &&& !peer.canonical().loopback()
    &&& p.nets.has(peer)
    &&& p.store.verdict(qname).rule is Some
}

/// The first policy that has something to say of a name asked by a client
/// decides. Where none has, the client is served like any other.
pub proof fn first_policy_decides(
    rules: Seq<ClientPolicy>,
    from: int,
    i: int,
    peer: IpAddr,
    qname: Seq<char>,
)
    requires
        0 <= from <= i <= rules.len(),
        forall|j: int| from <= j < i ==> !speaks(#[trigger] rules[j], peer, qname),
        i < rules.len() ==> speaks(rules[i], peer, qname),
    ensures
        i == rules.len() ==> decision_from(rules, from, peer, qname) is Passthrough,
        i < rules.len() && rules[i].store.verdict(qname).blocked ==> decision_from(
            rules,
            from,
            peer,
            qname,
        ) is Block,
        i < rules.len() && !rules[i].store.verdict(qname).blocked ==> decision_from(
            rules,
            from,
            peer,
            qname,
        ) is Allow,
    decreases i - from,
{
    if from < rules.len() {
        blocked_where_listed(rules[from].store, qname);
        if from < i {
            assert(!speaks(rules[from], peer, qname));
            first_policy_decides(rules, from + 1, i, peer, qname);
        }
    }
}

/// Whether IPv6 is filtered for a client is said by the first policy that
/// matches the client and says anything of it. Where none does, no policy says.
pub proof fn first_policy_filters(rules: Seq<ClientPolicy>, from: int, i: int, peer: IpAddr)
    requires
        0 <= from <= i <= rules.len(),
        forall|j: int|
            from <= j < i ==> peer.canonical().loopback() || !(#[trigger] rules[j]).nets.has(peer)
                || rules[j].filter_aaaa is None,
        i < rules.len() ==> !peer.canonical().loopback() && rules[i].nets.has(peer)
            && rules[i].filter_aaaa is Some,
    ensures
        i == rules.len() ==> filter_from(rules, from, peer) is None,
        i < rules.len() ==> filter_from(rules, from, peer) == rules[i].filter_aaaa,
    decreases i - from,
{
    if from < i {
        assert(peer.canonical().loopback() || !rules[from].nets.has(peer)
            || rules[from].filter_aaaa is None);
        first_policy_filters(rules, from + 1, i, peer);
    }
}

// ---------------------------------------------------------------------------
// Private addresses
// ---------------------------------------------------------------------------

/// The ranges that are private unless others are given: this machine, the
/// private networks, what is local to a link, shared address space, what stands
/// for no address, and their like in IPv6.
pub proof fn ranges_that_are_private(s: Seq<char>)
    ensures
        default_ranges().contains(s) <==> {
            ||| s == "127.0.0.0/8"@
            ||| s == "10.0.0.0/8"@
            ||| s == "172.16.0.0/12"@
            ||| s == "192.168.0.0/16"@
            ||| s == "169.254.0.0/16"@
            ||| s == "100.64.0.0/10"@
            ||| s == "0.0.0.0/8"@
            ||| s == "fc00::/7"@
            ||| s == "fe80::/10"@
            ||| s == "64:ff9b::/96"@
            ||| s == "::1/128"@
            ||| s == "::/128"@
        },
{
    let d = default_ranges();
    assert(d[0] == "127.0.0.0/8"@ && d[1] == "10.0.0.0/8"@ && d[2] == "172.16.0.0/12"@ && d[3]
        == "192.168.0.0/16"@ && d[4] == "169.254.0.0/16"@ && d[5] == "100.64.0.0/10"@ && d[6]
        == "0.0.0.0/8"@ && d[7] == "fc00::/7"@ && d[8] == "64:ff9b::/96"@ && d[9] == "fe80::/10"@
        && d[10] == "::1/128"@ && d[11] == "::/128"@);
    assert(d.len() == 12);
}

/// Of a section everything stays, in its order, but the address records whose
/// address is private; nothing of what stays is changed but the data of service
/// bindings.
pub proof fn only_private_addresses_go(
    recs: Seq<RecordView>,
    private: spec_fn(IpAddr) -> bool,
    keep: spec_fn(RecordView) -> bool,
)
    requires
        forall|r: RecordView| #[trigger]
            keep(r) <==> match r.data {
                RdataView::A { addr } => !private(IpAddr::V4(addr)),
                RdataView::Aaaa { addr } => !private(IpAddr::V6(addr)),
                _ => true,
            },
    ensures
        hints_alone_differ(scrubbed(recs, private), recs.filter(keep)),
        acted_on(recs, private) == 0 ==> scrubbed(recs, private) == recs,
        recs.filter(keep).len() < recs.len() ==> acted_on(recs, private) > 0,
    decreases recs.len(),
{
    reveal(Seq::filter);
    if recs.len() > 0 {
        let before = recs.drop_last();
        only_private_addresses_go(before, private, keep);
        let r = recs.last();
        assert(exposed(r, private) == !keep(r));
        assert(recs =~= before.push(r));
        let a = scrubbed(recs, private);
        let b = recs.filter(keep);
        assert forall|i: int| 0 <= i < a.len() implies {
            &&& (#[trigger] a[i]).domain == b[i].domain
            &&& a[i].ttl == b[i].ttl
            &&& match b[i].data {
                RdataView::Unknown { qtype, data } => a[i].data matches RdataView::Unknown {
                    qtype: t,
                    data: e,
                } && t == qtype && (qtype != 64 && qtype != 65 ==> e == data),
                other => a[i].data == other,
            }
        } by {
            let p = scrubbed(before, private);
            let q = before.filter(keep);
            if i < p.len() {
                assert(a[i] == p[i]);
                assert(b[i] == q[i]);
            } else {
                assert(a[i] == cleaned_record(r, private));
                assert(b[i] == r);
            }
        }
    } else {
        assert(scrubbed(recs, private) =~= recs);
    }
}

/// The private addresses of a packet are those of its three record sections. Its
/// header, its questions and its OPT record stay.
pub proof fn every_section_is_scrubbed(p: PacketView, private: spec_fn(IpAddr) -> bool)
    ensures
        scrubbed_packet(p, private).header == p.header,
        scrubbed_packet(p, private).questions == p.questions,
        scrubbed_packet(p, private).edns == p.edns,
        scrubbed_packet(p, private).answers == scrubbed(p.answers, private),
        scrubbed_packet(p, private).authorities == scrubbed(p.authorities, private),
        scrubbed_packet(p, private).resources == scrubbed(p.resources, private),
        packet_acted_on(p, private) == 0 <==> acted_on(p.answers, private) == 0 && acted_on(
            p.authorities,
            private,
        ) == 0 && acted_on(p.resources, private) == 0,
{
}

/// Of a record that stays, only the data of a service binding is changed: it
/// loses its private addresses, where it has any.
pub proof fn bindings_lose_private_addresses(r: RecordView, private: spec_fn(IpAddr) -> bool)
    ensures
        ({
            let c = cleaned_record(r, private);
            &&& c.domain == r.domain
            &&& c.ttl == r.ttl
            &&& match r.data {
                RdataView::Unknown { qtype, data } => if (qtype == 64 || qtype == 65)
                    && edited_rdata(data, without_private(private)) is Some {
                    c.data == (RdataView::Unknown {
                        qtype,
                        data: edited_rdata(data, without_private(private))->0,
                    })
                } else {
                    c == r
                },
                _ => c == r,
            }
        }),
{
}

/// Texts are ordered as words in a dictionary are: by the first character in
/// which they differ, and the shorter first where one begins the other.
pub proof fn texts_in_dictionary_order(
    same: Seq<char>,
    a: char,
    b: char,
    x: Seq<char>,
    y: Seq<char>,
)
    ensures
        a != b ==> (text_less(same + seq![a] + x, same + seq![b] + y) <==> a < b),
        text_less(same, same + seq![a] + x),
        !text_less(same + x, same),
    decreases same.len(),
{
    let s = same + seq![a] + x;
    let t = same + seq![b] + y;
    let u = same + x;
    if same.len() > 0 {
        let rest = same.drop_first();
        assert(s.drop_first() =~= rest + seq![a] + x);
        assert(t.drop_first() =~= rest + seq![b] + y);
        assert(u.drop_first() =~= rest + x);
        texts_in_dictionary_order(rest, a, b, x, y);
    }
}

/// The names that a list of a policy has are those that its lines name.
pub proof fn policy_lists_names(list: Seq<String>, d: Seq<char>)
    ensures
        list_names(list).contains(d) <==> exists|i: int|
            0 <= i < text_lines(joined(texts(list), seq!['\n'])).len() && listed_domain(
                #[trigger] text_lines(joined(texts(list), seq!['\n']))[i],
            ) == Some(d),
{
    reveal_strlit("\n");
    assert("\n"@ =~= seq!['\n']);
    list_holds_what_lines_name(text_lines(joined(texts(list), "\n"@)), d);
}

/// A policy that a configuration gives blocks the names that it lists, and those
/// below them, and allows those of its exceptions; it says nothing of others.
pub proof fn policy_blocks_what_it_lists(c: ClientPolicyConfig, p: ClientPolicy, qname: Seq<char>)
    requires
        c.gives(p),
    ensures
        ({
            let d = normalized(qname);
            let v = p.store.verdict(qname);
            let allowed = exists|e: Seq<char>|
                normalized_set(list_names(c.allow@)).contains(e) && #[trigger] stands_for(e, d);
            let blocked = exists|e: Seq<char>|
                list_names(c.block@).contains(e) && #[trigger] stands_for(e, d);
            &&& v.blocked <==> blocked && !allowed
            &&& v.rule is Some <==> blocked || allowed
        }),
        forall|e: Seq<char>| #[trigger]
            normalized_set(list_names(c.allow@)).contains(e) <==> exists|a: Seq<char>|
                list_names(c.allow@).contains(a) && e == #[trigger] normalized(a),
        p.filter_aaaa == c.filter_aaaa,
{
    let d = normalized(qname);
    blocked_where_listed(p.store, qname);
    assert(p.store.exceptions@.config == normalized_set(list_names(c.allow@)));
    assert forall|e: Seq<char>| #[trigger]
        normalized_set(list_names(c.allow@)).contains(e) implies exists|a: Seq<char>|
        list_names(c.allow@).contains(a) && e == #[trigger] normalized(a) by {
        let f = |d: Seq<char>| crate::domain_list::normalized(d);
        let a = choose|a: Seq<char>| list_names(c.allow@).contains(a) && f(a) == e;
        assert(e == normalized(a));
    }
    assert forall|a: Seq<char>| #[trigger] list_names(c.allow@).contains(a) implies normalized_set(
        list_names(c.allow@),
    ).contains(normalized(a)) by {
        let f = |d: Seq<char>| crate::domain_list::normalized(d);
        assert(f(a) == normalized(a));
    }
}

/// A domain in any letters is put in lower case and loses the dots at its end.
pub proof fn normal_form_of_any_domain(domain: Seq<char>, lower: Seq<char>, dots: Seq<char>)
    requires
        lowercase(domain) == lower + dots,
        forall|i: int| 0 <= i < dots.len() ==> #[trigger] dots[i] == '.',
        lower.len() == 0 || lower.last() != '.',
    ensures
        normalized(domain) == lower,
{
    trailing_run_is_cut(lower, dots, '.');
}

} // verus!
