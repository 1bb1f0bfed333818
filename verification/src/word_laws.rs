//! What is said in words: the names of types, outcomes and ways, and the messages
//! about what is wrong.
use vstd::prelude::*;

use crate::acl::{bad_entry, entry_net};
use crate::api::{
    counted, override_remark, phone_url, probe_remark, says, DiagnoseStep, Found, UpstreamProbe,
};
use crate::banner::{
    config_value, lower_rows, proxy_value, upper_rows, with_row, BannerInfo, RowView, DIM, GREEN,
    YELLOW,
};
use crate::client_policy::{list_names, place, ClientPolicyConfig};
use crate::config::{bad_rule, Config, ForwardingRuleConfig, UpstreamMode};
use crate::dev_server::type_shown;
use crate::header::ResultCode;
use crate::net::{ipv4_text, IpNet, Ipv4Addr};
use crate::question::QueryType;
use crate::relay::{count_line, next_count};
use crate::service::{set_in, status_shown, StatusReport};
use crate::service_control::sc_state;
use crate::stats::{Transport, UpstreamTransport};
use crate::steps::{after_action, ActionView, IfMissing};
use crate::text::{decimal, joined, quoted_text, text_lines, texts};

verus! {

// ---------------------------------------------------------------------------
// Names
// ---------------------------------------------------------------------------

/// The names of the record types.
pub proof fn names_of_types(t: QueryType)
    ensures
        t.name() == (match t {
            QueryType::A => "A"@,
            QueryType::AAAA => "AAAA"@,
            QueryType::CNAME => "CNAME"@,
            QueryType::DNSKEY => "DNSKEY"@,
            QueryType::DS => "DS"@,
            QueryType::HTTPS => "HTTPS"@,
            QueryType::MX => "MX"@,
            QueryType::NS => "NS"@,
            QueryType::NSEC => "NSEC"@,
            QueryType::NSEC3 => "NSEC3"@,
            QueryType::PTR => "PTR"@,
            QueryType::RRSIG => "RRSIG"@,
            QueryType::SOA => "SOA"@,
            QueryType::SRV => "SRV"@,
            QueryType::SVCB => "SVCB"@,
            QueryType::TXT => "TXT"@,
            QueryType::UNKNOWN(_) => "UNKNOWN"@,
        }),
{
}

/// The names of the outcomes.
pub proof fn names_of_outcomes(c: ResultCode)
    ensures
        c.name() == (match c {
            ResultCode::FORMERR => "FORMERR"@,
            ResultCode::NOERROR => "NOERROR"@,
            ResultCode::NOTIMP => "NOTIMP"@,
            ResultCode::NXDOMAIN => "NXDOMAIN"@,
            ResultCode::REFUSED => "REFUSED"@,
            ResultCode::SERVFAIL => "SERVFAIL"@,
        }),
{
}

/// The names of the protocols by which queries come and go, and of the modes.
pub proof fn names_of_protocols(t: Transport, u: UpstreamTransport, m: UpstreamMode)
    ensures
        t.name() == (match t {
            Transport::Doh => "DOH"@,
            Transport::Dot => "DOT"@,
            Transport::Tcp => "TCP"@,
            Transport::Udp => "UDP"@,
        }),
        u.name() == (match u {
            UpstreamTransport::Doh => "DOH"@,
            UpstreamTransport::Dot => "DOT"@,
            UpstreamTransport::Odoh => "ODOH"@,
            UpstreamTransport::Tcp => "TCP"@,
            UpstreamTransport::Udp => "UDP"@,
        }),
        m.name() == (match m {
            UpstreamMode::Auto => "auto"@,
            UpstreamMode::Forward => "forward"@,
            UpstreamMode::Odoh => "odoh"@,
            UpstreamMode::Recursive => "recursive"@,
        }),
{
}

/// A type that is logged is shown by its name or by its number.
pub proof fn types_in_the_log(n: u16)
    ensures
        type_shown(1) == "A"@,
        type_shown(28) == "AAAA"@,
        n != 1 && n != 28 ==> type_shown(n) == "TYPE"@ + decimal(n as nat),
{
}

/// The limits of messages: 4096 bytes in a buffer, over TCP and over HTTPS.
pub proof fn limits_of_messages(len: nat)
    ensures
        len <= crate::buffer::BUF_SIZE <==> len <= 4096,
        len <= crate::tcp::MAX_MSG_LEN <==> len <= 4096,
        len <= crate::doh::MAX_DNS_MSG <==> len <= 4096,
{
}

// ---------------------------------------------------------------------------
// Messages
// ---------------------------------------------------------------------------

/// An entry that stands for no network is told with the place that it is from.
pub proof fn message_about_an_entry(context: Seq<char>, entry: Seq<char>)
    ensures
        bad_entry(context, entry) == "invalid CIDR or IP in "@ + context + seq![':', ' ']
            + quoted_text(entry),
{
    reveal_strlit(": ");
    assert(": "@ =~= seq![':', ' ']);
}

/// A forwarding rule without upstreams is told by its suffixes, and one with an
/// upstream that stands for nothing by that upstream.
pub proof fn message_about_a_rule(c: ForwardingRuleConfig, m: Seq<char>, u: Seq<char>, e: Seq<char>)
    ensures
        c.upstream@.len() == 0 ==> (c.complains(m) <==> m == "forwarding rule for suffix "@
            + crate::config::quoted_list(texts(c.suffix@)) + ": upstream must not be empty"@),
        bad_rule(u, e) == "forwarding rule for upstream '"@ + u + "': "@ + e,
        crate::config::quoted_list(seq![u]) == seq!['['] + quoted_text(u) + seq![']'],
{
    reveal_strlit("[");
    reveal_strlit("]");
    assert("["@ =~= seq!['[']);
    assert("]"@ =~= seq![']']);
    let one = seq![u].map_values(|s: Seq<char>| quoted_text(s));
    assert(one.len() == 1);
    assert(joined(one, ", "@) == one[0]);
}

/// A policy counts where it names clients that stand for networks, and says
/// something: a name to block, a name to allow, or whether IPv6 is filtered.
pub proof fn policies_that_count(c: ClientPolicyConfig, d: Seq<char>)
    requires
        c.valid(),
    ensures
        c.from@.len() > 0,
        forall|i: int| 0 <= i < c.from@.len() ==> entry_net((#[trigger] c.from@[i])@) is Some,
        forall|i: int| 0 <= i < c.exclude@.len() ==> entry_net((#[trigger] c.exclude@[i])@) is Some,
        c.filter_aaaa is None ==> list_names(c.block@) != Set::<Seq<char>>::empty() || list_names(
            c.allow@,
        ) != Set::<Seq<char>>::empty(),
{
    let a = choose|nets: Seq<IpNet>| crate::acl::nets_of(c.from@, nets);
    assert forall|i: int| 0 <= i < c.from@.len() implies entry_net((#[trigger] c.from@[i])@)
        is Some by {
        assert(entry_net(c.from@[i]@) == Some(a[i]));
    }
    let b = choose|nets: Seq<IpNet>| crate::acl::nets_of(c.exclude@, nets);
    assert forall|i: int| 0 <= i < c.exclude@.len() implies entry_net((#[trigger] c.exclude@[i])@)
        is Some by {
        assert(entry_net(c.exclude@[i]@) == Some(b[i]));
    }
}

/// A policy is told by its place, counted from zero; one without clients and one
/// that says nothing are told as such.
pub proof fn message_about_a_policy(c: ClientPolicyConfig, idx: int, m: Seq<char>)
    ensures
        place(idx) == "client_policy["@ + decimal(idx as nat) + seq![']'],
        c.from@.len() == 0 ==> (c.complains(idx, m) <==> m == place(idx)
            + ".from: must list at least one CIDR or IP"@),
        c.from@.len() > 0 && c.filter_aaaa is None && list_names(c.block@) == Set::<
            Seq<char>,
        >::empty() && list_names(c.allow@) == Set::<Seq<char>>::empty() ==> (c.complains(idx, m)
            <==> m == place(idx)
            + ": must specify at least one valid domain in `block`/`allow`, or set `filter_aaaa`"@),
{
    reveal_strlit("]");
    assert("]"@ =~= seq![']']);
}

/// A step of a diagnosis has matched where there is something to tell of it.
pub proof fn steps_of_a_diagnosis(s: DiagnoseStep, source: Seq<char>, detail: Option<Seq<char>>)
    requires
        says(s, source, detail),
    ensures
        s.source@ == source,
        s.matched <==> detail is Some,
        detail is None ==> s.detail is None,
        detail matches Some(d) ==> s.detail is Some && s.detail->0@ == d,
{
}

/// What a diagnosis tells of an override, of what was counted, and of asking
/// upstream.
pub proof fn remarks_of_a_diagnosis(found: Found, n: nat, word: Seq<char>, p: UpstreamProbe)
    ensures
        found.override_entry is None ==> override_remark(&found) is None,
        found.override_entry matches Some((d, t, q)) ==> override_remark(&found) == Some(
            d@ + " -> "@ + t@ + " ("@ + q.name() + ")"@,
        ),
        counted(None, word) is None,
        counted(Some(n), word) == Some(decimal(n) + word),
        match p {
            UpstreamProbe::Unconfigured => probe_remark(&p) == "no upstream configured"@,
            UpstreamProbe::Answered(code, k) => probe_remark(&p) == code.name() + " ("@ + decimal(
                k as nat,
            ) + " answers)"@,
            UpstreamProbe::Failed(e) => probe_remark(&p) == "error: "@ + e@,
        },
{
}

/// The address for a phone is that of this machine on the local network.
pub proof fn address_for_a_phone(ip: Ipv4Addr, port: u16)
    ensures
        phone_url(ip, port) == "http://"@ + ipv4_text(ip) + seq![':'] + decimal(port as nat)
            + "/mobileconfig"@,
{
    reveal_strlit(":");
    assert(":"@ =~= seq![':']);
}

/// A count of the relay is shown on a line of its own, and starts over when it
/// is full.
pub proof fn counts_of_the_relay(label: Seq<char>, n: u64)
    ensures
        count_line(label, n) == label + decimal(n as nat) + seq!['\n'],
        n < u64::MAX ==> next_count(n) == n + 1,
        n == u64::MAX ==> next_count(n) == 0,
{
    reveal_strlit("\n");
    assert("\n"@ =~= seq!['\n']);
}

// ---------------------------------------------------------------------------
// Files
// ---------------------------------------------------------------------------

/// A file that is written, copied or renamed has its contents at its place, one
/// that is removed or renamed is gone from its place, and every other file
/// stays.
pub proof fn files_after_an_action(
    files: Map<Seq<char>, Seq<char>>,
    from: Seq<char>,
    to: Seq<char>,
    contents: Seq<char>,
    other: Seq<char>,
)
    requires
        files.contains_key(from),
        from != to,
        other != from,
        other != to,
    ensures
        ({
            let w = after_action(ActionView::WriteFile { path: to, contents }, files);
            let c = after_action(ActionView::CopyFile { from, to }, files);
            let r = after_action(ActionView::RenameFile { from, to }, files);
            let d = after_action(
                ActionView::RemoveFile { path: from, missing: IfMissing::Done },
                files,
            );
            &&& w.contains_key(to) && w[to] == contents
            &&& c.contains_key(to) && c[to] == files[from] && c.contains_key(from) && c[from]
                == files[from]
            &&& r.contains_key(to) && r[to] == files[from] && !r.contains_key(from)
            &&& !d.contains_key(from)
            &&& forall|m: Map<Seq<char>, Seq<char>>|
                m == w || m == c || m == r || m == d ==> (#[trigger] m.contains_key(other)
                    <==> files.contains_key(other)) && (files.contains_key(other) ==> m[other]
                    == files[other])
        }),
{
}

// ---------------------------------------------------------------------------
// The banner
// ---------------------------------------------------------------------------

proof fn row_is_added(
    v: Seq<RowView>,
    on: bool,
    label: Seq<char>,
    color: Seq<char>,
    value: Seq<char>,
    r: RowView,
)
    ensures
        with_row(v, on, label, color, value).contains(r) <==> v.contains(r) || (on && r.label
            == label && r.color == color && r.value == value),
{
    let one = RowView { label, color, value };
    let w = v.push(one);
    if v.contains(r) {
        let i = choose|i: int| 0 <= i < v.len() && v[i] == r;
        assert(w[i] == r);
    }
    assert(w[v.len() as int] == one);
}

/// The lower part of the banner tells where the configuration, the data and the
/// services are; a configuration that is not there is told as the defaults.
pub proof fn places_in_the_banner(i: BannerInfo, r: RowView)
    ensures
        lower_rows(&i).contains(r) <==> r.color == DIM@ && {
            ||| r.label == "Config"@ && r.value == config_value(&i)
            ||| r.label == "Data"@ && r.value == i.data_dir@
            ||| r.label == "Services"@ && r.value == i.services_path@
        },
        i.config_found ==> config_value(&i) == i.config_path@,
        !i.config_found ==> config_value(&i) == i.config_path@ + " (defaults)"@,
{
    let a = Seq::<RowView>::empty();
    let b = with_row(a, true, "Config"@, DIM@, config_value(&i));
    let c = with_row(b, true, "Data"@, DIM@, i.data_dir@);
    row_is_added(a, true, "Config"@, DIM@, config_value(&i), r);
    row_is_added(b, true, "Data"@, DIM@, i.data_dir@, r);
    row_is_added(c, true, "Services"@, DIM@, i.services_path@, r);
}

/// The proxy is told by its ports, or by its domain and port where it has no
/// port for TLS, and not at all where it is off.
pub proof fn proxy_in_the_banner(c: Config)
    ensures
        !c.proxy.enabled ==> proxy_value(&c) is None,
        c.proxy.enabled && c.proxy.tls_port > 0 ==> proxy_value(&c) == Some(
            "http://:"@ + decimal(c.proxy.port as nat) + " https://:"@ + decimal(
                c.proxy.tls_port as nat,
            ),
        ),
        c.proxy.enabled && c.proxy.tls_port == 0 ==> proxy_value(&c) == Some(
            "http://*."@ + c.proxy.tld@ + " on :"@ + decimal(c.proxy.port as nat),
        ),
{
}

/// The upper part of the banner tells what the server is set up with: each row is
/// there where what it tells of is.
pub proof fn rows_of_the_banner(c: Config, i: BannerInfo, r: RowView)
    ensures
        ({
            let upstream = if i.upstream_mode is Recursive {
                "recursive (root hints)"@
            } else {
                i.upstream_label@
            };
            let blocking = if c.blocking.enabled {
                decimal(c.blocking.lists@.len()) + " lists"@
            } else {
                "disabled"@
            };
            upper_rows(&c, &i).contains(r) <==> {
                ||| r.label == "DNS"@ && r.color == GREEN@ && r.value
                    == joined(texts(c.server.bind_addr@), ", "@)
                ||| r.label == "API"@ && r.color == GREEN@ && r.value
                    == i.api_url@
                ||| r.label == "Dashboard"@ && r.color == GREEN@ && r.value
                    == i.api_url@
                ||| r.label == "Upstream"@ && r.color == GREEN@ && r.value
                    == upstream
                ||| r.label == "Zones"@ && r.color == GREEN@ && r.value
                    == decimal(i.zone_count as nat) + " records"@
                ||| r.label == "Cache"@ && r.color == GREEN@ && r.value
                    == "max "@ + decimal(c.cache.max_entries as nat) + " entries"@
                ||| c.cache.warm@.len() > 0 && r.label == "Warm"@ && r.color == GREEN@
                    && r.value == decimal(c.cache.warm@.len()) + " domains"@
                ||| r.label == "Blocking"@ && r.color == GREEN@ && r.value
                    == blocking
                ||| c.proxy.enabled && r.label == "Proxy"@ && r.color == GREEN@
                    && r.value == proxy_value(&c)->0
                ||| c.proxy.enabled && c.proxy.bind_addr@ == "127.0.0.1"@ && r.label == ""@ && r.color == YELLOW@
                    && r.value == "\u{26a0} proxy on 127.0.0.1 \u{2014} ."@ + c.proxy.tld@ + " not LAN reachable"@
                ||| c.dot.enabled && r.label == "DoT"@ && r.color == GREEN@
                    && r.value == "tls://:"@ + decimal(c.dot.port as nat)
                ||| i.doh_enabled && r.label == "DoH"@ && r.color == GREEN@
                    && r.value == "https://:"@ + decimal(c.proxy.tls_port as nat) + "/dns-query"@
                ||| c.lan.enabled && r.label == "LAN"@ && r.color == GREEN@
                    && r.value == "mDNS (_numa._tcp.local)"@
                ||| i.rule_count > 0 && r.label == "Routing"@ && r.color == GREEN@
                    && r.value == decimal(i.rule_count as nat) + " conditional rules"@
            }
        }),
{
    let upstream = if i.upstream_mode is Recursive {
        "recursive (root hints)"@
    } else {
        i.upstream_label@
    };
    let blocking = if c.blocking.enabled {
        decimal(c.blocking.lists@.len()) + " lists"@
    } else {
        "disabled"@
    };
    let v0 = Seq::<RowView>::empty();
    let t0 = joined(texts(c.server.bind_addr@), ", "@);
    let v1 = with_row(v0, true, "DNS"@, GREEN@, t0);
    row_is_added(v0, true, "DNS"@, GREEN@, t0, r);
    let v2 = with_row(v1, true, "API"@, GREEN@, i.api_url@);
    row_is_added(v1, true, "API"@, GREEN@, i.api_url@, r);
    let v3 = with_row(v2, true, "Dashboard"@, GREEN@, i.api_url@);
    row_is_added(v2, true, "Dashboard"@, GREEN@, i.api_url@, r);
    let v4 = with_row(v3, true, "Upstream"@, GREEN@, upstream);
    row_is_added(v3, true, "Upstream"@, GREEN@, upstream, r);
    let t4 = decimal(i.zone_count as nat) + " records"@;
    let v5 = with_row(v4, true, "Zones"@, GREEN@, t4);
    row_is_added(v4, true, "Zones"@, GREEN@, t4, r);
    let t5 = "max "@ + decimal(c.cache.max_entries as nat) + " entries"@;
    let v6 = with_row(v5, true, "Cache"@, GREEN@, t5);
    row_is_added(v5, true, "Cache"@, GREEN@, t5, r);
    let t6 = decimal(c.cache.warm@.len()) + " domains"@;
    let v7 = with_row(v6, c.cache.warm@.len() > 0, "Warm"@, GREEN@, t6);
    row_is_added(v6, c.cache.warm@.len() > 0, "Warm"@, GREEN@, t6, r);
    let v8 = with_row(v7, true, "Blocking"@, GREEN@, blocking);
    row_is_added(v7, true, "Blocking"@, GREEN@, blocking, r);
    let v9 = with_row(v8, c.proxy.enabled, "Proxy"@, GREEN@, proxy_value(&c)->0);
    row_is_added(v8, c.proxy.enabled, "Proxy"@, GREEN@, proxy_value(&c)->0, r);
    let t9 = "\u{26a0} proxy on 127.0.0.1 \u{2014} ."@ + c.proxy.tld@ + " not LAN reachable"@;
    let on9 = c.proxy.enabled && c.proxy.bind_addr@ == "127.0.0.1"@;
    let v10 = with_row(v9, on9, ""@, YELLOW@, t9);
    row_is_added(v9, on9, ""@, YELLOW@, t9, r);
    let t10 = "tls://:"@ + decimal(c.dot.port as nat);
    let v11 = with_row(v10, c.dot.enabled, "DoT"@, GREEN@, t10);
    row_is_added(v10, c.dot.enabled, "DoT"@, GREEN@, t10, r);
    let t11 = "https://:"@ + decimal(c.proxy.tls_port as nat) + "/dns-query"@;
    let v12 = with_row(v11, i.doh_enabled, "DoH"@, GREEN@, t11);
    row_is_added(v11, i.doh_enabled, "DoH"@, GREEN@, t11, r);
    let v13 = with_row(v12, c.lan.enabled, "LAN"@, GREEN@, "mDNS (_numa._tcp.local)"@);
    row_is_added(v12, c.lan.enabled, "LAN"@, GREEN@, "mDNS (_numa._tcp.local)"@, r);
    let t13 = decimal(i.rule_count as nat) + " conditional rules"@;
    let v14 = with_row(v13, i.rule_count > 0, "Routing"@, GREEN@, t13);
    row_is_added(v13, i.rule_count > 0, "Routing"@, GREEN@, t13, r);
    if proxy_value(&c) is None {
        assert(v10 == v8);
    }
    assert(upper_rows(&c, &i) == v14);
}

// ---------------------------------------------------------------------------
// Reports about the service
// ---------------------------------------------------------------------------

/// What the system prints is set in by two spaces, line by line, and followed by
/// an empty line.
pub proof fn lines_are_set_in(line: Seq<char>, rest: Seq<Seq<char>>)
    ensures
        set_in(seq![line] + rest) == seq![' ', ' '] + line + seq!['\n'] + set_in(rest),
        set_in(Seq::empty()) == seq!['\n'],
{
    reveal_strlit("  ");
    reveal_strlit("\n");
    assert("  "@ =~= seq![' ', ' ']);
    assert("\n"@ =~= seq!['\n']);
    let all = seq![line] + rest;
    assert(all[0] == line);
    assert(all.drop_first() =~= rest);
}

/// The service is told as not installed where its system knows nothing of it, and
/// by what its system prints where it does.
pub proof fn status_of_the_service(output: &str)
    ensures
        output@.len() == 0 ==> status_shown(StatusReport::Linux { output }) == Ok::<
            Seq<char>,
            Seq<char>,
        >("  Numa service is not installed.\n\n"@),
        output@.len() > 0 ==> status_shown(StatusReport::Linux { output }) == Ok::<
            Seq<char>,
            Seq<char>,
        >(set_in(text_lines(output@))),
        status_shown(StatusReport::Macos { output: None }) == Ok::<Seq<char>, Seq<char>>(
            "  Numa service is not installed.\n\n"@,
        ),
        status_shown(StatusReport::Macos { output: Some(output) }) == Ok::<Seq<char>, Seq<char>>(
            "  Numa service is loaded.\n\n"@ + set_in(text_lines(output@)),
        ),
        status_shown(StatusReport::Windows { output }) == Ok::<Seq<char>, Seq<char>>(
            "  "@ + sc_state(output@) + "\n\n"@,
        ),
        status_shown(StatusReport::Other) is Err,
{
}

} // verus!
