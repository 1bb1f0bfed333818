//! What the operating system says of DNS: parsing its files and the output of
//! its tools, and rules that forward some domains to other resolvers.
use vstd::prelude::*;

use crate::domain_list::under;
use crate::forward::{
    addr_text, parse_upstream_addr, PoolView, Upstream, UpstreamPool, UpstreamView,
};
use crate::net::{ip_text, parse_ip, parse_ipv4, parse_socket_addr, socket_text};
use crate::text::{
    concat, concat3, contains, ends_with, has_part, lines, split, split_parts, str_eq, text_lines,
    texts, trim, trim_end_char, trimmed, without_trailing,
};

verus! {

/// Whether an address is no real upstream: a loopback address, the stub of the
/// local resolver, a placeholder, or nothing.
pub open spec fn stub_address(s: Seq<char>) -> bool {
    ||| s == "127.0.0.1"@
    ||| s == "127.0.0.53"@
    ||| s == "0.0.0.0"@
    ||| s == "::1"@
    ||| s == "fec0:0:0:ffff::1"@
    ||| s == "fec0:0:0:ffff::2"@
    ||| s == "fec0:0:0:ffff::3"@
    ||| s == ""@
}

/// Whether an address is no real upstream.
pub fn is_loopback_or_stub(addr: &str) -> (b: bool)
    ensures
        b == stub_address(addr@),
{
    str_eq(addr, "127.0.0.1") || str_eq(addr, "127.0.0.53") || str_eq(addr, "0.0.0.0") || str_eq(
        addr,
        "::1",
    ) || str_eq(addr, "fec0:0:0:ffff::1") || str_eq(addr, "fec0:0:0:ffff::2") || str_eq(
        addr,
        "fec0:0:0:ffff::3",
    ) || str_eq(addr, "")
}

/// A rule that forwards a domain and the domains under it.
#[derive(Debug, Clone, PartialEq, Eq)]
pub struct ForwardingRule {
    pub suffix: String,
    pub upstream: UpstreamPool,
}

/// A rule that forwards a domain and the domains under it.
pub struct RuleView {
    pub suffix: Seq<char>,
    pub upstream: PoolView,
}

impl View for ForwardingRule {
    type V = RuleView;

    open spec fn view(&self) -> RuleView {
        RuleView { suffix: self.suffix@, upstream: self.upstream@ }
    }
}

/// What each rule is.
pub open spec fn rules(v: Seq<ForwardingRule>) -> Seq<RuleView> {
    v.map_values(|r: ForwardingRule| r@)
}

impl ForwardingRule {
    /// A rule for a domain.
    pub fn new(suffix: String, upstream: UpstreamPool) -> (r: Self)
        ensures
            r@ == (RuleView { suffix: suffix@, upstream: upstream@ }),
    {
        ForwardingRule { suffix, upstream }
    }
}

/// Whether rule `i` is the first for a domain.
pub open spec fn first_rule(rs: Seq<RuleView>, domain: Seq<char>, i: int) -> bool {
    &&& 0 <= i < rs.len()
    &&& under(domain, rs[i].suffix)
    &&& forall|j: int| 0 <= j < i ==> !under(domain, (#[trigger] rs[j]).suffix)
}

/// Whether no rule is for a domain.
pub open spec fn no_rule(rs: Seq<RuleView>, domain: Seq<char>) -> bool {
    forall|j: int| 0 <= j < rs.len() ==> !under(domain, (#[trigger] rs[j]).suffix)
}

/// Whether a domain is another or lies under it.
pub fn is_under(domain: &str, entry: &str) -> (b: bool)
    ensures
        b == under(domain@, entry@),
{
    if str_eq(domain, entry) {
        return true;
    }
    let tail = concat(".", entry);
    proof {
        reveal_strlit(".");
        assert("."@ =~= seq!['.']);
    }
    ends_with(domain, tail.as_str())
}

/// The upstreams of the first rule for a domain.
pub fn match_forwarding_rule<'a>(domain: &str, rule_list: &'a Vec<ForwardingRule>) -> (r: Option<
    &'a UpstreamPool,
>)
    ensures
        match r {
            Some(p) => exists|i: int|
                #[trigger] first_rule(rules(rule_list@), domain@, i) && rules(
                    rule_list@,
                )[i].upstream == p@,
            None => no_rule(rules(rule_list@), domain@),
        },
{
    let ghost rs = rules(rule_list@);
    let mut i: usize = 0;
    while i < rule_list.len()
        invariant
            i <= rule_list.len(),
            rs == rules(rule_list@),
            forall|j: int| 0 <= j < i ==> !under(domain@, (#[trigger] rs[j]).suffix),
        decreases rule_list.len() - i,
    {
        assert(rs[i as int] == rule_list@[i as int]@);
        if is_under(domain, rule_list[i].suffix.as_str()) {
            assert(first_rule(rs, domain@, i as int));
            return Some(&rule_list[i].upstream);
        }
        i += 1;
    }
    None
}

/// What was found out about the system's DNS.
pub struct SystemDnsInfo {
    pub default_upstream: Option<String>,
    pub forwarding_rules: Vec<ForwardingRule>,
}

/// The rule that forwards a domain to a nameserver.
pub open spec fn rule_for(domain: Seq<char>, nameserver: Seq<char>) -> Option<RuleView> {
    match addr_text(nameserver, 53) {
        None => None,
        Some(a) => Some(
            RuleView {
                suffix: domain,
                upstream: PoolView { primary: seq![UpstreamView::Udp(a)], fallback: Seq::empty() },
            },
        ),
    }
}

/// The rule that forwards a domain to a nameserver.
pub fn make_rule(domain: &str, nameserver: &str) -> (r: Option<ForwardingRule>)
    ensures
        match r {
            Some(rule) => rule_for(domain@, nameserver@) == Some(rule@),
            None => rule_for(domain@, nameserver@) is None,
        },
{
    match parse_upstream_addr(nameserver, 53) {
        Ok(a) => {
            let mut primary: Vec<Upstream> = Vec::new();
            primary.push(Upstream::Udp(a));
            let none: Vec<Upstream> = Vec::new();
            assert(crate::forward::upstreams(primary@) =~= seq![UpstreamView::Udp(a)]);
            assert(crate::forward::upstreams(none@) =~= Seq::<UpstreamView>::empty());
            Some(ForwardingRule::new(domain.to_owned(), UpstreamPool::new(primary, none)))
        },
        Err(_) => None,
    }
}

// ---------------------------------------------------------------------------
// A port that cannot be bound
// ---------------------------------------------------------------------------

/// Why an address could not be bound.
#[derive(Debug, Clone, Copy, PartialEq, Eq, Structural)]
pub enum BindError {
    AddrInUse,
    PermissionDenied,
    Other,
}

/// Whether a text is an address with port 53.
pub open spec fn port_53(bind_addr: Seq<char>) -> bool {
    socket_text(bind_addr) matches Some(a) && a.port == 53
}

/// Whether a text is an address with port 53.
pub fn is_port_53(bind_addr: &str) -> (b: bool)
    ensures
        b == port_53(bind_addr@),
{
    match parse_socket_addr(bind_addr) {
        Some(a) => a.port == 53,
        None => false,
    }
}

/// The advice for an address that could not be bound, with what is wrong, why
/// that may be, and the configuration file to write.
pub open spec fn advice(
    bind_addr: Seq<char>,
    title: Seq<char>,
    cause: Seq<char>,
    config_path: Seq<char>,
) -> Seq<char> {
    "\n\x1b[1;38;2;192;98;58mNuma\x1b[0m — cannot bind to "@ + bind_addr + ": "@ + title
        + ".\n\n  "@ + cause
        + "\n\n  Fix — pick one:\n\n    1. Install Numa as the system resolver (frees port 53):\n\n         sudo numa install       (on Windows, run as Administrator)\n\n    2. Run on a non-privileged port for testing.\n       Create "@
        + config_path
        + " with:\n\n         [server]\n         bind_addr = \"127.0.0.1:5354\"\n         api_port  = 5380\n\n       Then run:  numa\n       Test with: dig @127.0.0.1 -p 5354 example.com\n\n"@
}

/// The advice for port 53 that could not be bound because it is in use or
/// privileged. Nothing for another port or another reason.
pub fn try_port53_advisory(bind_addr: &str, err: BindError, config_path: &str) -> (r: Option<
    String,
>)
    ensures
        match r {
            None => !port_53(bind_addr@) || err == BindError::Other,
            Some(s) => {
                &&& port_53(bind_addr@)
                &&& err == BindError::AddrInUse ==> s@ == advice(
                    bind_addr@,
                    "port 53 is already in use"@,
                    "Another process is already bound to port 53. On Linux this is\n  typically systemd-resolved; on Windows, the DNS Client service."@,
                    config_path@,
                )
                &&& err == BindError::PermissionDenied ==> s@ == advice(
                    bind_addr@,
                    "permission denied"@,
                    "Port 53 is privileged — binding it requires root on Linux/macOS\n  or Administrator on Windows."@,
                    config_path@,
                )
                &&& err != BindError::Other
            },
        },
{
    if !is_port_53(bind_addr) {
        return None;
    }
    let (title, cause) = match err {
        BindError::AddrInUse => (
            "port 53 is already in use",
            "Another process is already bound to port 53. On Linux this is\n  typically systemd-resolved; on Windows, the DNS Client service.",
        ),
        BindError::PermissionDenied => (
            "permission denied",
            "Port 53 is privileged — binding it requires root on Linux/macOS\n  or Administrator on Windows.",
        ),
        BindError::Other => {
            return None;
        },
    };
    let mut s = concat3(
        "\n\x1b[1;38;2;192;98;58mNuma\x1b[0m — cannot bind to ",
        bind_addr,
        ": ",
    );
    s.append(title);
    s.append(".\n\n  ");
    s.append(cause);
    s.append(
        "\n\n  Fix — pick one:\n\n    1. Install Numa as the system resolver (frees port 53):\n\n         sudo numa install       (on Windows, run as Administrator)\n\n    2. Run on a non-privileged port for testing.\n       Create ",
    );
    s.append(config_path);
    s.append(
        " with:\n\n         [server]\n         bind_addr = \"127.0.0.1:5354\"\n         api_port  = 5380\n\n       Then run:  numa\n       Test with: dig @127.0.0.1 -p 5354 example.com\n\n",
    );
    Some(s)
}

// ---------------------------------------------------------------------------
// Addresses in the output of tools
// ---------------------------------------------------------------------------

/// Whether a text is an address that is a real upstream.
pub open spec fn real_address(s: Seq<char>) -> bool {
    ip_text(s) is Some && !stub_address(s)
}

/// What follows the last colon of a line, without the white space around it.
pub open spec fn after_last_colon(line: Seq<char>) -> Seq<char> {
    trimmed(split_parts(line, ':').last())
}

/// What follows the last colon of a line, without the white space around it.
fn last_field(line: &str) -> (s: String)
    ensures
        s@ == after_last_colon(line@),
{
    let parts = split(line, ':');
    let n: usize = parts.len();
    assert(split_parts(line@, ':').last() == parts@[n - 1]@);
    trim(parts[n - 1].as_str())
}

/// The real address that follows the first colon-separated mark of one of two
/// kinds: the first in the lines.
pub open spec fn marked_address(lines: Seq<Seq<char>>, a: Seq<char>, b: Seq<char>) -> Option<
    Seq<char>,
>
    decreases lines.len(),
{
    if lines.len() == 0 {
        None
    } else {
        let line = lines[0];
        if (has_part(line, a) || has_part(line, b)) && real_address(after_last_colon(line)) {
            Some(after_last_colon(line))
        } else {
            marked_address(lines.drop_first(), a, b)
        }
    }
}

/// The first real address at the end of a line that holds one of two marks.
fn find_marked(v: &Vec<String>, a: &str, b: &str) -> (r: Option<String>)
    ensures
        match r {
            Some(s) => marked_address(texts(v@), a@, b@) == Some(s@),
            None => marked_address(texts(v@), a@, b@) is None,
        },
{
    let ghost all = texts(v@);
    let mut i: usize = 0;
    assert(all.subrange(0, all.len() as int) =~= all);
    while i < v.len()
        invariant
            i <= v.len(),
            all == texts(v@),
            marked_address(all, a@, b@) == marked_address(
                all.subrange(i as int, all.len() as int),
                a@,
                b@,
            ),
        decreases v.len() - i,
    {
        let ghost rest = all.subrange(i as int, all.len() as int);
        let line = v[i].as_str();
        assert(rest.len() > 0 && rest[0] == line@);
        assert(rest.drop_first() =~= all.subrange(i + 1, all.len() as int));
        if contains(line, a) || contains(line, b) {
            let ip = last_field(line);
            if parse_ip(ip.as_str()).is_some() && !is_loopback_or_stub(ip.as_str()) {
                return Some(ip);
            }
        }
        i += 1;
    }
    assert(all.subrange(all.len() as int, all.len() as int).len() == 0);
    None
}

/// The upstream that `resolvectl status` names.
pub open spec fn resolvectl_upstream(text: Seq<char>) -> Option<Seq<char>> {
    marked_address(text_lines(text), "DNS Servers"@, "Current DNS Server"@)
}

/// The upstream that the output of `resolvectl status` names.
pub fn resolvectl_dns_server(text: &str) -> (r: Option<String>)
    ensures
        match r {
            Some(s) => resolvectl_upstream(text@) == Some(s@),
            None => resolvectl_upstream(text@) is None,
        },
{
    let v = lines(text);
    find_marked(&v, "DNS Servers", "Current DNS Server")
}

/// Each text without the white space at its two ends.
pub open spec fn all_trimmed(v: Seq<Seq<char>>) -> Seq<Seq<char>> {
    v.map_values(|s: Seq<char>| trimmed(s))
}

/// The lines of a text, each without the white space at its two ends.
pub fn trimmed_lines(text: &str) -> (v: Vec<String>)
    ensures
        texts(v@) == all_trimmed(text_lines(text@)),
{
    let raw = lines(text);
    let mut v: Vec<String> = Vec::new();
    let mut i: usize = 0;
    while i < raw.len()
        invariant
            i <= raw.len(),
            v@.len() == i,
            forall|j: int| 0 <= j < i ==> (#[trigger] v@[j])@ == trimmed(raw@[j]@),
        decreases raw.len() - i,
    {
        v.push(trim(raw[i].as_str()));
        i += 1;
    }
    assert(texts(v@) =~= all_trimmed(texts(raw@)));
    v
}

/// What the output of `ipconfig /all` says of DNS: the first real server.
pub fn discover_windows(text: &str) -> (r: SystemDnsInfo)
    ensures
        crate::service_store::text_in(r.default_upstream) == marked_address(
            all_trimmed(text_lines(text@)),
            "DNS Servers"@,
            "DNS-Server"@,
        ),
        r.forwarding_rules@.len() == 0,
{
    let v = trimmed_lines(text);
    SystemDnsInfo {
        default_upstream: find_marked(&v, "DNS Servers", "DNS-Server"),
        forwarding_rules: Vec::new(),
    }
}

/// The first text of a row that is an IPv4 address and a real upstream.
pub open spec fn first_v4(parts: Seq<Seq<char>>) -> Option<Seq<char>>
    decreases parts.len(),
{
    if parts.len() == 0 {
        None
    } else {
        let a = trimmed(parts[0]);
        if !stub_address(a) && (ip_text(a) matches Some(crate::net::IpAddr::V4(_))) {
            Some(a)
        } else {
            first_v4(parts.drop_first())
        }
    }
}

/// The server that a line of a DHCP packet names.
pub open spec fn dhcp_server(line: Seq<char>) -> Option<Seq<char>> {
    let parts = split_parts(line, '{');
    if has_part(line, "domain_name_server"@) && parts.len() >= 2 {
        first_v4(split_parts(trimmed(without_trailing(parts[1], '}')), ','))
    } else {
        None
    }
}

/// The first server that the lines of a DHCP packet name.
pub open spec fn dhcp_servers(lines: Seq<Seq<char>>) -> Option<Seq<char>>
    decreases lines.len(),
{
    if lines.len() == 0 {
        None
    } else {
        match dhcp_server(lines[0]) {
            Some(s) => Some(s),
            None => dhcp_servers(lines.drop_first()),
        }
    }
}

/// The first text of a row that is an IPv4 address and a real upstream.
fn find_v4(parts: &Vec<String>) -> (r: Option<String>)
    ensures
        match r {
            Some(s) => first_v4(texts(parts@)) == Some(s@),
            None => first_v4(texts(parts@)) is None,
        },
{
    let ghost all = texts(parts@);
    let mut i: usize = 0;
    assert(all.subrange(0, all.len() as int) =~= all);
    while i < parts.len()
        invariant
            i <= parts.len(),
            all == texts(parts@),
            first_v4(all) == first_v4(all.subrange(i as int, all.len() as int)),
        decreases parts.len() - i,
    {
        let ghost rest = all.subrange(i as int, all.len() as int);
        let a = trim(parts[i].as_str());
        assert(rest.len() > 0 && rest[0] == parts@[i as int]@);
        assert(rest.drop_first() =~= all.subrange(i + 1, all.len() as int));
        if !is_loopback_or_stub(a.as_str()) && parse_ipv4(a.as_str()).is_some() {
            return Some(a);
        }
        i += 1;
    }
    assert(all.subrange(all.len() as int, all.len() as int).len() == 0);
    None
}

/// The first server that the output of `ipconfig getpacket` names.
pub fn parse_dhcp_packet(text: &str) -> (r: Option<String>)
    ensures
        match r {
            Some(s) => dhcp_servers(text_lines(text@)) == Some(s@),
            None => dhcp_servers(text_lines(text@)) is None,
        },
{
    let v = lines(text);
    let ghost all = text_lines(text@);
    let mut i: usize = 0;
    assert(all.subrange(0, all.len() as int) =~= all);
    while i < v.len()
        invariant
            i <= v.len(),
            all == texts(v@),
            all == text_lines(text@),
            dhcp_servers(all) == dhcp_servers(all.subrange(i as int, all.len() as int)),
        decreases v.len() - i,
    {
        let ghost rest = all.subrange(i as int, all.len() as int);
        let line = v[i].as_str();
        assert(rest.len() > 0 && rest[0] == line@);
        assert(rest.drop_first() =~= all.subrange(i + 1, all.len() as int));
        if contains(line, "domain_name_server") {
            let parts = split(line, '{');
            if parts.len() >= 2 {
                assert(split_parts(line@, '{')[1] == parts@[1]@);
                let closed = trim_end_char(parts[1].as_str(), '}');
                let inner = trim(closed.as_str());
                let servers = split(inner.as_str(), ',');
                match find_v4(&servers) {
                    Some(s) => {
                        assert(dhcp_server(line@) == Some(s@));
                        return Some(s);
                    },
                    None => {},
                }
            }
        }
        i += 1;
    }
    assert(all.subrange(all.len() as int, all.len() as int).len() == 0);
    None
}

/// The first server that one of two interfaces was given, where the packets of
/// both are known up to it. A packet that cannot be had ends the search.
pub fn detect_dhcp_dns(first: Option<&str>, second: Option<&str>) -> (r: Option<String>)
    ensures
        crate::service_store::text_in(r) == match first {
            None => None,
            Some(a) => match dhcp_servers(text_lines(a@)) {
                Some(s) => Some(s),
                None => match second {
                    None => None,
                    Some(b) => dhcp_servers(text_lines(b@)),
                },
            },
        },
{
    match first {
        None => None,
        Some(a) => match parse_dhcp_packet(a) {
            Some(s) => Some(s),
            None => match second {
                None => None,
                Some(b) => parse_dhcp_packet(b),
            },
        },
    }
}

} // verus!
