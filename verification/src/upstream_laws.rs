//! What upstreams come to: how they are written, which of them a server asks,
//! and which rules send a name elsewhere.
use vstd::prelude::*;

use crate::config::{configured_rules, ForwardingRuleConfig, UpstreamConfig};
use crate::forward::{
    addr_text, list_outcome, socket_shown, upstream_fault, upstream_shown, upstream_text, PoolView,
    UpstreamView,
};
use crate::net::{ip_text, ipv4_text, socket_text, IpAddr, Ipv4Addr, SocketAddr};
use crate::odoh_config::{odoh_outcome, registrable, url_text, OdohView, UrlView};
use crate::serve::{upstream_choice, with_siblings};
use crate::system_dns::{rule_for, RuleView};
use crate::text::{decimal, has_prefix, texts};
use crate::text_laws::{cut_at_the_first, prefix_and_rest};

verus! {

// ---------------------------------------------------------------------------
// Upstreams in text
// ---------------------------------------------------------------------------

/// An address with a port stands for itself, and one without a port for the port
/// that is usual; anything else is no address.
pub proof fn address_with_the_usual_port(s: Seq<char>, port: u16)
    ensures
        socket_text(s) is Some ==> addr_text(s, port) == socket_text(s),
        socket_text(s) is None ==> match ip_text(s) {
            Some(ip) => addr_text(s, port) == Some(SocketAddr { ip, port, scope: 0 }),
            None => addr_text(s, port) is None,
        },
{
}

/// What starts with `https://` is asked over HTTPS at that place.
pub proof fn upstream_over_https(rest: Seq<char>, port: u16)
    ensures
        upstream_text("https://"@ + rest, port) == Some(UpstreamView::Doh("https://"@ + rest)),
{
    prefix_and_rest("https://"@, rest);
}

/// What starts with `tls://` is asked over TLS at that address, port 853 unless
/// it has one, under the name behind a `#` where there is one.
pub proof fn upstream_over_tls(addr: Seq<char>, name: Seq<char>, port: u16)
    requires
        !addr.contains('#'),
    ensures
        match addr_text(addr, 853) {
            Some(a) => {
                &&& upstream_text("tls://"@ + addr, port) == Some(UpstreamView::Dot(a, None))
                &&& upstream_text("tls://"@ + addr + seq!['#'] + name, port) == Some(
                    UpstreamView::Dot(a, Some(name)),
                )
            },
            None => {
                &&& upstream_text("tls://"@ + addr, port) is None
                &&& upstream_text("tls://"@ + addr + seq!['#'] + name, port) is None
                &&& upstream_fault("tls://"@ + addr) == "invalid upstream address: "@ + addr
            },
        },
{
    reveal_strlit("https://");
    reveal_strlit("tls://");
    let bare = "tls://"@ + addr;
    let more = "tls://"@ + addr + seq!['#'] + name;
    let tail = addr + seq!['#'] + name;
    assert(more =~= "tls://"@ + tail);
    prefix_and_rest("tls://"@, addr);
    prefix_and_rest("tls://"@, tail);
    cut_at_the_first(addr, name, '#');
    assert(bare[0] == 't' && more[0] == 't');
    if has_prefix(bare, "https://"@) {
        assert(bare.subrange(0, 8)[0] == "https://"@[0]);
    }
    if has_prefix(more, "https://"@) {
        assert(more.subrange(0, 8)[0] == "https://"@[0]);
    }
    assert(tail.subrange(addr.len() as int + 1, tail.len() as int) =~= name);
}

/// Anything else is an address that is asked over UDP, or nothing.
pub proof fn upstream_over_udp(s: Seq<char>, port: u16)
    requires
        !has_prefix(s, "https://"@),
        !has_prefix(s, "tls://"@),
    ensures
        match addr_text(s, port) {
            Some(a) => upstream_text(s, port) == Some(UpstreamView::Udp(a)),
            None => upstream_text(s, port) is None && upstream_fault(s)
                == "invalid upstream address: "@ + s,
        },
{
}

/// An upstream is shown by its address and port, with the protocol before it
/// where that is not UDP.
pub proof fn upstreams_are_shown(a: Ipv4Addr, port: u16, name: Seq<char>, url: Seq<char>)
    ensures
        ({
            let addr = SocketAddr { ip: IpAddr::V4(a), port, scope: 0 };
            let shown = ipv4_text(a) + seq![':'] + decimal(port as nat);
            &&& socket_shown(addr) == shown
            &&& upstream_shown(UpstreamView::Udp(addr)) == shown
            &&& upstream_shown(UpstreamView::Tcp(addr)) == "tcp://"@ + shown
            &&& upstream_shown(UpstreamView::Dot(addr, None)) == "tls://"@ + shown
            &&& upstream_shown(UpstreamView::Dot(addr, Some(name))) == "tls://"@ + shown + seq!['#']
                + name
            &&& upstream_shown(UpstreamView::Doh(url)) == url
        }),
{
    reveal_strlit(":");
    reveal_strlit("#");
    assert(":"@ =~= seq![':']);
    assert("#"@ =~= seq!['#']);
}

/// A pool is shown by its first upstream and by how many more there are.
pub proof fn pools_are_shown(first: UpstreamView, primary: Seq<UpstreamView>, fallback: Seq<
    UpstreamView,
>)
    ensures
        ({
            let pool = PoolView { primary: seq![first] + primary, fallback };
            let more = primary.len() + fallback.len();
            &&& pool.first() == Some(first)
            &&& more == 0 ==> pool.shown() == upstream_shown(first)
            &&& more > 0 ==> pool.shown() == upstream_shown(first) + " (+"@ + decimal(more)
                + " more)"@
        }),
        (PoolView { primary: Seq::empty(), fallback: Seq::empty() }).shown() == "none"@,
{
    assert((seq![first] + primary)[0] == first);
}

/// A list of upstreams is that of what each entry stands for, in their order,
/// where each stands for one.
pub proof fn entries_are_upstreams(list: Seq<Seq<char>>, port: u16, v: Seq<UpstreamView>)
    requires
        list.len() == v.len(),
        forall|i: int|
            0 <= i < list.len() ==> upstream_text(#[trigger] list[i], port) == Some(v[i]),
    ensures
        list_outcome(list, port) == Ok::<Seq<UpstreamView>, Seq<char>>(v),
    decreases list.len(),
{
    if list.len() > 0 {
        let l = list.drop_last();
        let w = v.drop_last();
        assert forall|i: int| 0 <= i < l.len() implies upstream_text(#[trigger] l[i], port) == Some(
            w[i],
        ) by {
            assert(l[i] == list[i]);
        }
        entries_are_upstreams(l, port, w);
        assert(upstream_text(list[list.len() - 1], port) == Some(v[v.len() - 1]));
        assert(w.push(v.last()) =~= v);
    } else {
        assert(v =~= Seq::<UpstreamView>::empty());
    }
}

/// A list is refused for the first entry that stands for no upstream.
pub proof fn first_bad_entry_is_told(list: Seq<Seq<char>>, port: u16, i: int)
    requires
        0 <= i < list.len(),
        upstream_text(list[i], port) is None,
        forall|j: int| 0 <= j < i ==> upstream_text(#[trigger] list[j], port) is Some,
    ensures
        list_outcome(list, port) == Err::<Seq<UpstreamView>, Seq<char>>(upstream_fault(list[i])),
    decreases list.len(),
{
    let l = list.drop_last();
    assert forall|j: int| 0 <= j < i implies upstream_text(#[trigger] l[j], port) is Some by {
        assert(l[j] == list[j]);
    }
    if i < list.len() - 1 {
        assert(l[i] == list[i]);
        first_bad_entry_is_told(l, port, i);
    } else {
        let v = Seq::new(l.len(), |k: int| upstream_text(l[k], port)->0);
        assert forall|k: int| 0 <= k < l.len() implies upstream_text(#[trigger] l[k], port) == Some(
            v[k],
        ) by {
            assert(l[k] == list[k]);
        }
        entries_are_upstreams(l, port, v);
    }
}

// ---------------------------------------------------------------------------
// The upstreams of a server
// ---------------------------------------------------------------------------

/// The fallbacks that are given stay, in front. Behind them stand addresses that
/// are asked over UDP, to be asked over TCP; nothing is added that is there
/// already, and nothing else.
pub proof fn fallbacks_stay_in_front(primary: Seq<UpstreamView>, fallback: Seq<UpstreamView>)
    ensures
        ({
            let all = with_siblings(primary, fallback);
            &&& all.len() >= fallback.len()
            &&& all.subrange(0, fallback.len() as int) == fallback
            &&& forall|i: int|
                fallback.len() <= i < all.len() ==> ((#[trigger] all[i]) matches UpstreamView::Tcp(
                    a,
                ) && primary.contains(UpstreamView::Udp(a)) && !all.subrange(0, i).contains(all[i]))
        }),
    decreases primary.len(),
{
    let all = with_siblings(primary, fallback);
    if primary.len() == 0 {
        assert(all.subrange(0, fallback.len() as int) =~= fallback);
    } else {
        let fewer = primary.drop_last();
        fallbacks_stay_in_front(fewer, fallback);
        let before = with_siblings(fewer, fallback);
        assert(all.subrange(0, fallback.len() as int) =~= before.subrange(
            0,
            fallback.len() as int,
        ));
        assert forall|i: int| fallback.len() <= i < all.len() implies ((
        #[trigger] all[i]) matches UpstreamView::Tcp(a) && primary.contains(UpstreamView::Udp(a))
            && !all.subrange(0, i).contains(all[i])) by {
            if i < before.len() {
                assert(all[i] == before[i]);
                let a = before[i]->Tcp_0;
                assert(fewer.contains(UpstreamView::Udp(a)));
                let k = choose|k: int| 0 <= k < fewer.len() && fewer[k] == UpstreamView::Udp(a);
                assert(primary[k] == UpstreamView::Udp(a));
                assert(all.subrange(0, i) =~= before.subrange(0, i));
            } else {
                assert(primary[primary.len() - 1] == primary.last());
                assert(all.subrange(0, i) =~= before);
            }
        }
    }
}

/// A server that is to resolve from the root down does so, and so does one that
/// is to find out for itself where the root can be reached; where it cannot, it
/// forwards. No list of upstreams matters to either.
pub proof fn root_is_asked_where_it_can_be(
    c: &UpstreamConfig,
    system: Option<Seq<char>>,
    network: Option<Seq<char>>,
    probe_ok: bool,
)
    ensures
        ({
            let u = upstream_choice(c, system, network, probe_ok);
            &&& c.mode is Recursive ==> (u matches Ok(x) && x.mode is Recursive && !x.auto)
            &&& c.mode is Auto && probe_ok ==> (u matches Ok(x) && x.mode is Recursive && !x.auto)
            &&& c.mode is Auto && !probe_ok ==> (u matches Ok(x) && x.mode is Forward && !x.auto
                && x.pool.fallback.len() == 0 && x.pool.primary == seq![
                UpstreamView::Doh("https://9.9.9.9/dns-query"@),
            ])
        }),
{
}

/// A server that forwards asks the upstreams that are configured. Where none
/// are, it asks the one that the system uses, or else the one that the network
/// gave, or else one that is known to all, and takes note that it found it by
/// itself.
pub proof fn configured_upstreams_are_asked(
    c: &UpstreamConfig,
    system: Option<Seq<char>>,
    network: Option<Seq<char>>,
    probe_ok: bool,
    primary: Seq<UpstreamView>,
    fallback: Seq<UpstreamView>,
)
    requires
        c.mode is Forward,
        list_outcome(texts(c.fallback@), c.port) == Ok::<Seq<UpstreamView>, Seq<char>>(fallback),
        c.address@.len() > 0 ==> list_outcome(texts(c.address@), c.port) == Ok::<
            Seq<UpstreamView>,
            Seq<char>,
        >(primary),
        c.address@.len() == 0 && system is Some ==> list_outcome(seq![system->0], c.port) == Ok::<
            Seq<UpstreamView>,
            Seq<char>,
        >(primary),
        c.address@.len() == 0 && system is None && network is Some ==> list_outcome(
            seq![network->0],
            c.port,
        ) == Ok::<Seq<UpstreamView>, Seq<char>>(primary),
        c.address@.len() == 0 && system is None && network is None ==> list_outcome(
            seq!["https://9.9.9.9/dns-query"@],
            c.port,
        ) == Ok::<Seq<UpstreamView>, Seq<char>>(primary),
    ensures
        upstream_choice(c, system, network, probe_ok) matches Ok(x) && x.mode is Forward && x.auto
            == (c.address@.len() == 0) && x.pool.primary == primary && x.pool.fallback
            == with_siblings(primary, fallback) && x.label == x.pool.shown(),
{
    assert(texts(c.address@).len() == c.address@.len());
}

/// A server that asks through a relay asks only through it where that is strict,
/// and has its fallbacks where it is not.
pub proof fn relay_is_asked(
    c: &UpstreamConfig,
    system: Option<Seq<char>>,
    network: Option<Seq<char>>,
    probe_ok: bool,
    o: OdohView,
    fallback: Seq<UpstreamView>,
)
    requires
        c.mode is Odoh,
        c.odoh() == Ok::<OdohView, Seq<char>>(o),
        list_outcome(texts(c.fallback@), c.port) == Ok::<Seq<UpstreamView>, Seq<char>>(fallback),
    ensures
        upstream_choice(c, system, network, probe_ok) matches Ok(x) && x.mode is Odoh && !x.auto
            && x.pool.primary == seq![
            UpstreamView::Odoh(o.relay_url, o.target_host, o.target_path),
        ] && x.pool.fallback == (if o.strict {
            Seq::empty()
        } else {
            fallback
        }),
{
}

/// A relay and a target are usable where both are reached over HTTPS, have a
/// host, and are not of one operator, by host or by registrable domain. What is
/// not said is strict, and the path is at least a slash.
pub proof fn relay_and_target_are_apart(
    relay: Seq<char>,
    r: UrlView,
    t: UrlView,
    shared: Option<Seq<char>>,
    strict: Option<bool>,
    relay_ip: Option<IpAddr>,
    target_ip: Option<IpAddr>,
)
    ensures
        ({
            let u = odoh_outcome(relay, r, t, shared, strict, relay_ip, target_ip);
            &&& u is Ok <==> r.scheme == "https"@ && t.scheme == "https"@ && r.host is Some
                && t.host is Some && r.host != t.host && shared is None
            &&& u matches Ok(o) ==> {
                &&& o.relay_url == relay
                &&& Some(o.relay_host) == r.host
                &&& Some(o.target_host) == t.host
                &&& t.path.len() > 0 ==> o.target_path == t.path
                &&& t.path.len() == 0 ==> o.target_path == seq!['/']
                &&& o.strict == (strict is None || strict == Some(true))
                &&& o.relay_bootstrap is Some <==> relay_ip is Some
                &&& o.target_bootstrap is Some <==> target_ip is Some
                &&& relay_ip matches Some(ip) ==> o.relay_bootstrap == Some(
                    SocketAddr {
                        ip,
                        port: if r.port is Some {
                            r.port->0
                        } else {
                            443u16
                        },
                        scope: 0,
                    },
                )
                &&& target_ip matches Some(ip) ==> o.target_bootstrap == Some(
                    SocketAddr {
                        ip,
                        port: if t.port is Some {
                            t.port->0
                        } else {
                            443u16
                        },
                        scope: 0,
                    },
                )
            }
        }),
{
    reveal_strlit("/");
    assert("/"@ =~= seq!['/']);
}

// ---------------------------------------------------------------------------
// Rules
// ---------------------------------------------------------------------------

/// A rule for a domain that is found on the system sends it to that server over
/// UDP, at port 53 unless it has one.
pub proof fn found_rule_forwards(domain: Seq<char>, server: Seq<char>)
    ensures
        match addr_text(server, 53) {
            Some(a) => rule_for(domain, server) matches Some(r) && r.suffix == domain
                && r.upstream.primary == seq![UpstreamView::Udp(a)] && r.upstream.fallback.len()
                == 0,
            None => rule_for(domain, server) is None,
        },
{
}

/// A configured rule stands once for each of its suffixes, with all of its
/// upstreams; one without upstreams, or with one that stands for nothing, is
/// refused.
pub proof fn rule_stands_for_each_suffix(c: ForwardingRuleConfig, v: Seq<UpstreamView>)
    requires
        list_outcome(texts(c.upstream@), 53) == Ok::<Seq<UpstreamView>, Seq<char>>(v),
    ensures
        c.upstream@.len() == 0 ==> c.meant() is None,
        c.upstream@.len() > 0 ==> (c.meant() matches Some(rs) && rs.len() == c.suffix@.len() && (
        forall|i: int|
            0 <= i < rs.len() ==> (#[trigger] rs[i]).suffix == c.suffix@[i]@
                && rs[i].upstream.primary == v && rs[i].upstream.fallback.len() == 0)),
{
    primaries_are_entries(texts(c.upstream@), 53, v);
}

proof fn primaries_are_entries(list: Seq<Seq<char>>, port: u16, v: Seq<UpstreamView>)
    requires
        list_outcome(list, port) == Ok::<Seq<UpstreamView>, Seq<char>>(v),
    ensures
        crate::config::primaries(list, port) == Some(v),
    decreases list.len(),
{
    if list.len() > 0 {
        primaries_are_entries(list.drop_last(), port, list_outcome(list.drop_last(), port)->Ok_0);
    }
}

/// The rules of a configuration are those of its entries, one after the other,
/// and there are none where one entry is refused.
pub proof fn rules_follow_each_other(a: Seq<ForwardingRuleConfig>, b: Seq<ForwardingRuleConfig>)
    ensures
        configured_rules(a + b) == (match (configured_rules(a), configured_rules(b)) {
            (Some(x), Some(y)) => Some(x + y),
            _ => None,
        }),
        a.len() == 1 ==> configured_rules(a) == a[0].meant(),
        a.len() == 0 ==> configured_rules(a) == Some(Seq::<RuleView>::empty()),
    decreases b.len(),
{
    if b.len() == 0 {
        assert(a + b =~= a);
        if let Some(x) = configured_rules(a) {
            assert(x + Seq::<RuleView>::empty() =~= x);
        }
    } else {
        let s = a + b;
        assert(s.drop_last() =~= a + b.drop_last());
        assert(s.last() == b.last());
        rules_follow_each_other(a, b.drop_last());
        if let (Some(x), Some(y), Some(z)) = (
            configured_rules(a),
            configured_rules(b.drop_last()),
            b.last().meant(),
        ) {
            assert((x + y) + z =~= x + (y + z));
        }
    }
    if a.len() == 1 {
        assert(a.drop_last() =~= Seq::<ForwardingRuleConfig>::empty());
        assert(configured_rules(a.drop_last()) == Some(Seq::<RuleView>::empty()));
        if let Some(x) = a[0].meant() {
            assert(Seq::<RuleView>::empty() + x =~= x);
        }
    }
}

/// A server with a list of upstreams that is not in order is not started: the
/// upstreams are looked at first, and the fallbacks next. Behind a strict relay
/// no fallback is looked at.
pub proof fn bad_lists_are_refused(
    c: &UpstreamConfig,
    system: Option<Seq<char>>,
    network: Option<Seq<char>>,
    probe_ok: bool,
    m: Seq<char>,
)
    ensures
        c.mode is Forward && c.address@.len() > 0 && list_outcome(texts(c.address@), c.port)
            == Err::<Seq<UpstreamView>, Seq<char>>(m) ==> upstream_choice(
            c,
            system,
            network,
            probe_ok,
        ) == Err::<crate::serve::ChoiceView, Seq<char>>(m),
        c.mode is Forward && c.address@.len() > 0 && list_outcome(texts(c.address@), c.port) is Ok
            && list_outcome(texts(c.fallback@), c.port) == Err::<Seq<UpstreamView>, Seq<char>>(m)
            ==> upstream_choice(c, system, network, probe_ok) == Err::<
            crate::serve::ChoiceView,
            Seq<char>,
        >(m),
        c.mode is Odoh && c.odoh() == Err::<OdohView, Seq<char>>(m) ==> upstream_choice(
            c,
            system,
            network,
            probe_ok,
        ) == Err::<crate::serve::ChoiceView, Seq<char>>(m),
        c.mode is Odoh && (c.odoh() matches Ok(o) && o.strict) ==> upstream_choice(
            c,
            system,
            network,
            probe_ok,
        ) is Ok,
        c.mode is Odoh && (c.odoh() matches Ok(o) && !o.strict) && list_outcome(
            texts(c.fallback@),
            c.port,
        ) == Err::<Seq<UpstreamView>, Seq<char>>(m) ==> upstream_choice(
            c,
            system,
            network,
            probe_ok,
        ) == Err::<crate::serve::ChoiceView, Seq<char>>(m),
{
    assert(texts(c.address@).len() == c.address@.len());
}

/// To ask through a relay, both the relay and the target have to be given, as
/// places that can be read; what they come to is what both are apart.
pub proof fn relay_and_target_are_needed(c: UpstreamConfig, r: UrlView, t: UrlView)
    ensures
        c.relay is None ==> c.odoh() == Err::<OdohView, Seq<char>>(
            "mode = \"odoh\" requires upstream.relay"@,
        ),
        c.relay is Some && c.target is None ==> c.odoh() == Err::<OdohView, Seq<char>>(
            "mode = \"odoh\" requires upstream.target"@,
        ),
        c.relay is Some && c.target is Some && (url_text(c.relay->0@) is Err || url_text(
            c.target->0@,
        ) is Err) ==> c.odoh() is Err,
        c.relay is Some && c.target is Some && url_text(c.relay->0@) == Ok::<UrlView, Seq<char>>(r)
            && url_text(c.target->0@) == Ok::<UrlView, Seq<char>>(t) && r.host is Some
            && t.host is Some ==> ({
            let a = registrable(r.host->0);
            let b = registrable(t.host->0);
            c.odoh() == odoh_outcome(
                c.relay->0@,
                r,
                t,
                if a is Some && a == b {
                    a
                } else {
                    None
                },
                c.strict,
                c.relay_ip,
                c.target_ip,
            )
        }),
{
}

} // verus!
