//! The configuration and its defaults.
use vstd::prelude::*;

use crate::client_policy::ClientPolicyConfig;
use crate::forward::{
    first_unparsed, parse_upstream, upstream_fault, upstream_text, upstreams, PoolView, Upstream,
    UpstreamPool, UpstreamView,
};
use crate::net::IpAddr;
use crate::paths::Platform;
use crate::service_store::RouteEntry;
use crate::system_dns::{first_rule, rules, ForwardingRule, RuleView};
use crate::text::{concat, concat3, joined, quoted, quoted_text, texts};
use crate::zone::ZoneRecord;

verus! {

/// Where the server listens on Windows: the resolver of the system has 127.0.0.1.
pub const NUMA_LOOPBACK_IP: &'static str = "127.0.0.2";

/// The port of the HTTP interface where none is configured.
pub const DEFAULT_API_PORT: u16 = 5380;

/// A rule that forwards domains, as it is configured.
#[derive(Clone, Debug)]
pub struct ForwardingRuleConfig {
    pub suffix: Vec<String>,
    pub upstream: Vec<String>,
}

/// Texts between brackets, each between quotes with its escapes.
pub open spec fn quoted_list(v: Seq<Seq<char>>) -> Seq<char> {
    "["@ + joined(v.map_values(|s: Seq<char>| quoted_text(s)), ", "@) + "]"@
}

/// Texts between brackets, each between quotes with its escapes.
fn quote_list(v: &Vec<String>) -> (s: String)
    ensures
        s@ == quoted_list(texts(v@)),
{
    let mut q: Vec<String> = Vec::new();
    let mut i: usize = 0;
    while i < v.len()
        invariant
            i <= v.len(),
            q@.len() == i,
            forall|j: int| 0 <= j < i ==> (#[trigger] q@[j])@ == quoted_text(v@[j]@),
        decreases v.len() - i,
    {
        q.push(quoted(v[i].as_str()));
        i += 1;
    }
    assert(texts(q@) =~= texts(v@).map_values(|s: Seq<char>| quoted_text(s)));
    concat3("[", crate::text::join(&q, ", ").as_str(), "]")
}

/// The upstreams that texts name, where all of them name one.
pub open spec fn primaries(list: Seq<Seq<char>>, port: u16) -> Option<Seq<UpstreamView>>
    decreases list.len(),
{
    if list.len() == 0 {
        Some(Seq::empty())
    } else {
        match (primaries(list.drop_last(), port), upstream_text(list.last(), port)) {
            (Some(v), Some(u)) => Some(v.push(u)),
            _ => None,
        }
    }
}

impl ForwardingRuleConfig {
    /// The rules that are meant: one for each domain, with the same upstreams.
    /// Nothing where there is no upstream or a text names none.
    pub open spec fn meant(&self) -> Option<Seq<RuleView>> {
        if self.upstream@.len() == 0 {
            None
        } else {
            match primaries(texts(self.upstream@), 53) {
                None => None,
                Some(v) => Some(
                    texts(self.suffix@).map_values(
                        |s: Seq<char>|
                            RuleView {
                                suffix: s,
                                upstream: PoolView { primary: v, fallback: Seq::empty() },
                            },
                    ),
                ),
            }
        }
    }

    /// Whether `m` is the message about a rule that means nothing.
    pub open spec fn complains(&self, m: Seq<char>) -> bool {
        if self.upstream@.len() == 0 {
            m == "forwarding rule for suffix "@ + quoted_list(texts(self.suffix@))
                + ": upstream must not be empty"@
        } else {
            exists|i: int|
                #[trigger] first_unparsed(self.upstream@, 53, i) && m == bad_rule(
                    self.upstream@[i]@,
                    upstream_fault(self.upstream@[i]@),
                )
        }
    }

    /// The rules that are meant, or a message about what is wrong.
    pub fn to_runtime_rules(&self) -> (r: Result<Vec<ForwardingRule>, String>)
        ensures
            match r {
                Ok(v) => self.meant() == Some(rules(v@)),
                Err(m) => self.meant() is None && self.complains(m@),
            },
    {
        if self.upstream.len() == 0 {
            let head = concat("forwarding rule for suffix ", quote_list(&self.suffix).as_str());
            return Err(concat(head.as_str(), ": upstream must not be empty"));
        }
        let ghost all = texts(self.upstream@);
        let mut primary: Vec<Upstream> = Vec::new();
        let mut i: usize = 0;
        assert(all.subrange(0, 0) =~= Seq::<Seq<char>>::empty());
        assert(upstreams(primary@) =~= Seq::<UpstreamView>::empty());
        while i < self.upstream.len()
            invariant
                i <= self.upstream.len(),
                self.upstream@.len() > 0,
                all == texts(self.upstream@),
                primaries(all.subrange(0, i as int), 53) == Some(upstreams(primary@)),
                forall|j: int|
                    0 <= j < i ==> upstream_text((#[trigger] self.upstream@[j])@, 53) is Some,
            decreases self.upstream.len() - i,
        {
            let s = self.upstream[i].as_str();
            proof {
                let more = all.subrange(0, i + 1);
                assert(more.drop_last() =~= all.subrange(0, i as int));
                assert(more.last() == s@);
                primaries_fail(all, i + 1, 53);
            }
            match parse_upstream(s, 53) {
                Ok(u) => {
                    let ghost before = primary@;
                    let ghost view = u@;
                    primary.push(u);
                    assert(upstreams(primary@) =~= upstreams(before).push(view));
                },
                Err(e) => {
                    let head = concat3("forwarding rule for upstream '", s, "': ");
                    let m = concat(head.as_str(), e.as_str());
                    assert(first_unparsed(self.upstream@, 53, i as int));
                    return Err(m);
                },
            }
            i += 1;
        }
        assert(all.subrange(0, all.len() as int) =~= all);
        let none: Vec<Upstream> = Vec::new();
        let pool = UpstreamPool::new(primary, none);
        assert(upstreams(none@) =~= Seq::<UpstreamView>::empty());
        let mut out: Vec<ForwardingRule> = Vec::new();
        let mut k: usize = 0;
        while k < self.suffix.len()
            invariant
                k <= self.suffix.len(),
                out@.len() == k,
                forall|j: int|
                    0 <= j < k ==> (#[trigger] out@[j])@ == (RuleView {
                        suffix: self.suffix@[j]@,
                        upstream: pool@,
                    }),
            decreases self.suffix.len() - k,
        {
            out.push(ForwardingRule::new(self.suffix[k].clone(), pool.copy()));
            k += 1;
        }
        assert(rules(out@) =~= self.meant()->0);
        Ok(out)
    }
}

/// The message about an upstream of a rule, with the reason `e`.
pub open spec fn bad_rule(upstream: Seq<char>, e: Seq<char>) -> Seq<char> {
    "forwarding rule for upstream '"@ + upstream + "': "@ + e
}

proof fn primaries_fail(list: Seq<Seq<char>>, i: int, port: u16)
    requires
        0 <= i <= list.len(),
    ensures
        primaries(list.subrange(0, i), port) is None ==> primaries(list, port) is None,
    decreases list.len() - i,
{
    if i < list.len() {
        primaries_fail(list, i + 1, port);
        assert(list.subrange(0, i + 1).drop_last() =~= list.subrange(0, i));
    } else {
        assert(list.subrange(0, i) =~= list);
    }
}

/// The rules that are configured, in their order. Nothing where one means nothing.
pub open spec fn configured_rules(configs: Seq<ForwardingRuleConfig>) -> Option<Seq<RuleView>>
    decreases configs.len(),
{
    if configs.len() == 0 {
        Some(Seq::empty())
    } else {
        match (configured_rules(configs.drop_last()), configs.last().meant()) {
            (Some(a), Some(b)) => Some(a + b),
            _ => None,
        }
    }
}

/// The rules that are configured, and after them those that were discovered.
/// A message where a configured rule means nothing.
pub fn merge_forwarding_rules(
    config_rules: &Vec<ForwardingRuleConfig>,
    discovered: Vec<ForwardingRule>,
) -> (r: Result<Vec<ForwardingRule>, String>)
    ensures
        match r {
            Ok(v) => configured_rules(config_rules@) matches Some(c) && rules(v@) == c + rules(
                discovered@,
            ),
            Err(m) => configured_rules(config_rules@) is None && exists|i: int|
                {
                    &&& 0 <= i < config_rules@.len()
                    &&& (#[trigger] config_rules@[i]).meant() is None
                    &&& config_rules@[i].complains(m@)
                    &&& forall|j: int|
                        0 <= j < i ==> (#[trigger] config_rules@[j]).meant() is Some
                },
        },
{
    let mut merged: Vec<ForwardingRule> = Vec::new();
    let mut i: usize = 0;
    assert(config_rules@.subrange(0, 0) =~= Seq::<ForwardingRuleConfig>::empty());
    assert(rules(merged@) =~= Seq::<RuleView>::empty());
    while i < config_rules.len()
        invariant
            i <= config_rules.len(),
            configured_rules(config_rules@.subrange(0, i as int)) == Some(rules(merged@)),
            forall|j: int| 0 <= j < i ==> (#[trigger] config_rules@[j]).meant() is Some,
        decreases config_rules.len() - i,
    {
        proof {
            let more = config_rules@.subrange(0, i + 1);
            assert(more.drop_last() =~= config_rules@.subrange(0, i as int));
            assert(more.last() == config_rules@[i as int]);
            configured_fail(config_rules@, i + 1);
        }
        match config_rules[i].to_runtime_rules() {
            Ok(v) => {
                let mut v = v;
                let ghost a = merged@;
                let ghost b = v@;
                merged.append(&mut v);
                assert(rules(merged@) =~= rules(a) + rules(b));
            },
            Err(m) => {
                return Err(m);
            },
        }
        i += 1;
    }
    assert(config_rules@.subrange(0, config_rules@.len() as int) =~= config_rules@);
    let ghost a = merged@;
    let mut rest = discovered;
    merged.append(&mut rest);
    assert(rules(merged@) =~= rules(a) + rules(discovered@));
    Ok(merged)
}

proof fn configured_fail(configs: Seq<ForwardingRuleConfig>, i: int)
    requires
        0 <= i <= configs.len(),
    ensures
        configured_rules(configs.subrange(0, i)) is None ==> configured_rules(configs) is None,
    decreases configs.len() - i,
{
    if i < configs.len() {
        configured_fail(configs, i + 1);
        assert(configs.subrange(0, i + 1).drop_last() =~= configs.subrange(0, i));
    } else {
        assert(configs.subrange(0, i) =~= configs);
    }
}

/// A rule that is configured comes before any that was discovered: where one of
/// the configured rules is for a domain, it is one of them that counts.
pub proof fn configured_rules_come_first(
    configured: Seq<RuleView>,
    discovered: Seq<RuleView>,
    domain: Seq<char>,
    i: int,
)
    requires
        first_rule(configured, domain, i),
    ensures
        first_rule(configured + discovered, domain, i),
{
    let both = configured + discovered;
    assert(both[i] == configured[i]);
    assert forall|j: int| 0 <= j < i implies !crate::domain_list::under(
        domain,
        (#[trigger] both[j]).suffix,
    ) by {
        assert(both[j] == configured[j]);
    }
}

/// A domain that no configured rule is for is left to those that were discovered.
pub proof fn discovered_rules_remain(
    configured: Seq<RuleView>,
    discovered: Seq<RuleView>,
    domain: Seq<char>,
    i: int,
)
    requires
        crate::system_dns::no_rule(configured, domain),
        first_rule(discovered, domain, i),
    ensures
        first_rule(configured + discovered, domain, configured.len() + i),
{
    let both = configured + discovered;
    assert(both[configured.len() + i] == discovered[i]);
    assert forall|j: int| 0 <= j < configured.len() + i implies !crate::domain_list::under(
        domain,
        (#[trigger] both[j]).suffix,
    ) by {
        if j < configured.len() {
            assert(both[j] == configured[j]);
        } else {
            assert(both[j] == discovered[j - configured.len()]);
        }
    }
}

// ---------------------------------------------------------------------------
// Defaults
// ---------------------------------------------------------------------------

/// Where the HTTP interface listens.
pub fn default_api_bind_addr() -> (r: String)
    ensures
        r@ == "127.0.0.1"@,
{
    "127.0.0.1".to_owned()
}

/// The port of the HTTP interface.
pub fn default_api_port() -> (r: u16)
    ensures
        r == DEFAULT_API_PORT,
{
    DEFAULT_API_PORT
}

/// Yes.
pub fn default_true() -> (r: bool)
    ensures
        r == true,
{
    true
}

/// Whether round-trip times steer the choice of servers.
pub fn default_srtt() -> (r: bool)
    ensures
        r,
{
    default_true()
}

/// The port of plain DNS.
pub fn default_upstream_port() -> (r: u16)
    ensures
        r == 53,
{
    53
}

/// How long to wait for an upstream.
pub fn default_timeout_ms() -> (r: u64)
    ensures
        r == 5000,
{
    5000
}

/// When to ask a second time: never, for a second query counts at the provider.
pub fn default_hedge_ms() -> (r: u64)
    ensures
        r == 0,
{
    0
}

/// How many answers the cache holds.
pub fn default_max_entries() -> (r: usize)
    ensures
        r == 100_000,
{
    100_000
}

/// The shortest time an answer is kept.
pub fn default_min_ttl() -> (r: u32)
    ensures
        r == 60,
{
    60
}

/// The longest time an answer is kept.
pub fn default_max_ttl() -> (r: u32)
    ensures
        r == 86400,
{
    86400
}

/// Whether blocking is on.
pub fn default_blocking_enabled() -> (r: bool)
    ensures
        r == true,
{
    true
}

/// How often blocklists are fetched again.
pub fn default_refresh_hours() -> (r: u64)
    ensures
        r == 24,
{
    24
}

/// How long a record of a zone may be kept.
pub fn default_zone_ttl() -> (r: u32)
    ensures
        r == 300,
{
    300
}

/// How long to wait for a PROXY header.
pub fn default_pp_header_timeout_ms() -> (r: u64)
    ensures
        r == 5000,
{
    5000
}

/// Where the proxy listens.
pub fn default_proxy_bind_addr() -> (r: String)
    ensures
        r@ == "127.0.0.1"@,
{
    "127.0.0.1".to_owned()
}

/// Whether the proxy is on.
pub fn default_proxy_enabled() -> (r: bool)
    ensures
        r == true,
{
    true
}

/// The port of the proxy.
pub fn default_proxy_port() -> (r: u16)
    ensures
        r == 80,
{
    80
}

/// The port of the proxy over TLS.
pub fn default_proxy_tls_port() -> (r: u16)
    ensures
        r == 443,
{
    443
}

/// The top-level domain of services.
pub fn default_proxy_tld() -> (r: String)
    ensures
        r@ == "numa"@,
{
    "numa".to_owned()
}

/// Whether peers on the local network are discovered.
pub fn default_lan_enabled() -> (r: bool)
    ensures
        r == false,
{
    false
}

/// How often the server announces itself, in seconds.
pub fn default_lan_broadcast_interval() -> (r: u64)
    ensures
        r == 30,
{
    30
}

/// How long a silent peer is remembered, in seconds.
pub fn default_lan_peer_timeout() -> (r: u64)
    ensures
        r == 90,
{
    90
}

/// Whether DNS over TLS is on.
pub fn default_dot_enabled() -> (r: bool)
    ensures
        r == true,
{
    true
}

/// The port of DNS over TLS.
pub fn default_dot_port() -> (r: u16)
    ensures
        r == 853,
{
    853
}

/// Where DNS over TLS listens.
pub fn default_dot_bind_addr() -> (r: String)
    ensures
        r@ == "0.0.0.0"@,
{
    "0.0.0.0".to_owned()
}

/// The port of the interface for phones.
pub fn default_mobile_port() -> (r: u16)
    ensures
        r == 8765,
{
    8765
}

/// Where the interface for phones listens.
pub fn default_mobile_bind_addr() -> (r: String)
    ensures
        r@ == "0.0.0.0"@,
{
    "0.0.0.0".to_owned()
}

/// Where DNS is served on a system: on Windows, at the address that the rules of
/// the system lead to.
pub open spec fn default_bind_addrs_list(platform: Platform) -> Seq<Seq<char>> {
    seq![
        if platform is Windows {
            NUMA_LOOPBACK_IP@ + ":53"@
        } else {
            "0.0.0.0:53"@
        },
    ]
}

/// Where DNS is served on a system.
pub fn default_bind_addrs(platform: Platform) -> (r: Vec<String>)
    ensures
        texts(r@) == default_bind_addrs_list(platform),
{
    let mut v: Vec<String> = Vec::new();
    match platform {
        Platform::Windows => {
            v.push(concat(NUMA_LOOPBACK_IP, ":53"));
        },
        _ => {
            v.push("0.0.0.0:53".to_owned());
        },
    }
    assert(texts(v@) =~= default_bind_addrs_list(platform));
    v
}

/// The blocklists to fetch.
pub open spec fn default_blocklists_list() -> Seq<Seq<char>> {
    seq![
        "https://cdn.jsdelivr.net/gh/hagezi/dns-blocklists@latest/hosts/pro.txt"@,
    ]
}

/// The blocklists to fetch.
pub fn default_blocklists() -> (r: Vec<String>)
    ensures
        texts(r@) == default_blocklists_list(),
{
    let mut v: Vec<String> = Vec::new();
    v.push("https://cdn.jsdelivr.net/gh/hagezi/dns-blocklists@latest/hosts/pro.txt".to_owned());
    assert(texts(v@) =~= default_blocklists_list());
    v
}

/// The top-level domains to look up ahead of time.
pub open spec fn default_prime_tlds_list() -> Seq<Seq<char>> {
    seq![
        "com"@,
        "net"@,
        "org"@,
        "info"@,
        "io"@,
        "dev"@,
        "app"@,
        "xyz"@,
        "me"@,
        "eu"@,
        "uk"@,
        "de"@,
        "fr"@,
        "nl"@,
        "it"@,
        "es"@,
        "pl"@,
        "se"@,
        "no"@,
        "dk"@,
        "fi"@,
        "at"@,
        "be"@,
        "ie"@,
        "pt"@,
        "cz"@,
        "ro"@,
        "gr"@,
        "hu"@,
        "bg"@,
        "hr"@,
        "sk"@,
        "si"@,
        "lt"@,
        "lv"@,
        "ee"@,
        "ch"@,
        "is"@,
        "co"@,
        "br"@,
        "au"@,
        "ca"@,
        "jp"@,
    ]
}

/// The top-level domains to look up ahead of time.
pub fn default_prime_tlds() -> (r: Vec<String>)
    ensures
        texts(r@) == default_prime_tlds_list(),
{
    let mut v: Vec<String> = Vec::new();
    v.push("com".to_owned());
    v.push("net".to_owned());
    v.push("org".to_owned());
    v.push("info".to_owned());
    v.push("io".to_owned());
    v.push("dev".to_owned());
    v.push("app".to_owned());
    v.push("xyz".to_owned());
    v.push("me".to_owned());
    v.push("eu".to_owned());
    v.push("uk".to_owned());
    v.push("de".to_owned());
    v.push("fr".to_owned());
    v.push("nl".to_owned());
    v.push("it".to_owned());
    v.push("es".to_owned());
    v.push("pl".to_owned());
    v.push("se".to_owned());
    v.push("no".to_owned());
    v.push("dk".to_owned());
    v.push("fi".to_owned());
    v.push("at".to_owned());
    v.push("be".to_owned());
    v.push("ie".to_owned());
    v.push("pt".to_owned());
    v.push("cz".to_owned());
    v.push("ro".to_owned());
    v.push("gr".to_owned());
    v.push("hu".to_owned());
    v.push("bg".to_owned());
    v.push("hr".to_owned());
    v.push("sk".to_owned());
    v.push("si".to_owned());
    v.push("lt".to_owned());
    v.push("lv".to_owned());
    v.push("ee".to_owned());
    v.push("ch".to_owned());
    v.push("is".to_owned());
    v.push("co".to_owned());
    v.push("br".to_owned());
    v.push("au".to_owned());
    v.push("ca".to_owned());
    v.push("jp".to_owned());
    assert(texts(v@) =~= default_prime_tlds_list());
    v
}

/// The addresses of the root servers, from a to m.
pub open spec fn default_root_hints_list() -> Seq<Seq<char>> {
    seq![
        "198.41.0.4"@,
        "199.9.14.201"@,
        "192.33.4.12"@,
        "199.7.91.13"@,
        "192.203.230.10"@,
        "192.5.5.241"@,
        "192.112.36.4"@,
        "198.97.190.53"@,
        "192.36.148.17"@,
        "192.58.128.30"@,
        "193.0.14.129"@,
        "199.7.83.42"@,
        "202.12.27.33"@,
    ]
}

/// The addresses of the root servers, from a to m.
pub fn default_root_hints() -> (r: Vec<String>)
    ensures
        texts(r@) == default_root_hints_list(),
{
    let mut v: Vec<String> = Vec::new();
    v.push("198.41.0.4".to_owned());
    v.push("199.9.14.201".to_owned());
    v.push("192.33.4.12".to_owned());
    v.push("199.7.91.13".to_owned());
    v.push("192.203.230.10".to_owned());
    v.push("192.5.5.241".to_owned());
    v.push("192.112.36.4".to_owned());
    v.push("198.97.190.53".to_owned());
    v.push("192.36.148.17".to_owned());
    v.push("192.58.128.30".to_owned());
    v.push("193.0.14.129".to_owned());
    v.push("199.7.83.42".to_owned());
    v.push("202.12.27.33".to_owned());
    assert(texts(v@) =~= default_root_hints_list());
    v
}

/// How queries that the server cannot answer are resolved.
#[derive(Debug, Clone, Copy, PartialEq, Eq, Structural)]
pub enum UpstreamMode {
    Auto,
    Forward,
    Recursive,
    Odoh,
}

impl UpstreamMode {
    /// The name of the mode.
    pub open spec fn name(&self) -> Seq<char> {
        match self {
            UpstreamMode::Auto => "auto"@,
            UpstreamMode::Forward => "forward"@,
            UpstreamMode::Recursive => "recursive"@,
            UpstreamMode::Odoh => "odoh"@,
        }
    }

    /// The name of the mode.
    pub fn as_str(&self) -> (s: &'static str)
        ensures
            s@ == self.name(),
    {
        match self {
            UpstreamMode::Auto => "auto",
            UpstreamMode::Forward => "forward",
            UpstreamMode::Recursive => "recursive",
            UpstreamMode::Odoh => "odoh",
        }
    }

    /// After how many milliseconds to ask a second time: as configured, but
    /// never in oblivious mode, where it would only show more to an observer.
    pub fn hedge_delay(self, hedge_ms: u64) -> (ms: u64)
        ensures
            ms == if self == UpstreamMode::Odoh {
                0
            } else {
                hedge_ms
            },
    {
        match self {
            UpstreamMode::Odoh => 0,
            _ => hedge_ms,
        }
    }
}

impl Default for UpstreamMode {
    fn default() -> (r: Self)
        ensures
            r == UpstreamMode::Forward,
    {
        UpstreamMode::Forward
    }
}

/// Which peers may send PROXY headers, and how long to wait for one.
#[derive(Clone, Debug)]
pub struct ProxyProtocolConfig {
    pub from: Vec<String>,
    pub header_timeout_ms: u64,
}

/// The configuration of the DNS server.
pub struct ServerConfig {
    pub bind_addr: Vec<String>,
    pub api_port: u16,
    pub api_bind_addr: String,
    pub data_dir: Option<String>,
    pub filter_aaaa: bool,
    pub proxy_protocol: ProxyProtocolConfig,
    pub allow_from: Vec<String>,
    pub rebind_protect: bool,
    pub rebind_allowlist: Vec<String>,
    pub rebind_private_ranges: Vec<String>,
}

/// The configuration of upstreams.
pub struct UpstreamConfig {
    pub mode: UpstreamMode,
    pub address: Vec<String>,
    pub port: u16,
    pub fallback: Vec<String>,
    pub timeout_ms: u64,
    pub hedge_ms: u64,
    pub root_hints: Vec<String>,
    pub prime_tlds: Vec<String>,
    pub srtt: bool,
    pub relay: Option<String>,
    pub target: Option<String>,
    pub strict: Option<bool>,
    pub relay_ip: Option<IpAddr>,
    pub target_ip: Option<IpAddr>,
}

/// The configuration of the cache.
pub struct CacheConfig {
    pub max_entries: usize,
    pub min_ttl: u32,
    pub max_ttl: u32,
    pub warm: Vec<String>,
}

/// The configuration of blocking.
pub struct BlockingConfig {
    pub enabled: bool,
    pub lists: Vec<String>,
    pub refresh_hours: u64,
    pub allowlist: Vec<String>,
}

/// The configuration of the proxy.
pub struct ProxyConfig {
    pub enabled: bool,
    pub port: u16,
    pub tls_port: u16,
    pub tld: String,
    pub bind_addr: String,
    pub cert_path: Option<String>,
    pub key_path: Option<String>,
    pub proxy_protocol: ProxyProtocolConfig,
}

/// A service as it is configured.
pub struct ServiceConfig {
    pub name: String,
    pub target_port: u16,
    pub target_host: Option<String>,
    pub routes: Vec<RouteEntry>,
}

/// The configuration of discovery on the local network.
#[derive(Clone, Copy, Debug, PartialEq, Eq, Structural)]
pub struct LanConfig {
    pub enabled: bool,
    pub broadcast_interval_secs: u64,
    pub peer_timeout_secs: u64,
}

/// The configuration of DNSSEC validation.
#[derive(Clone, Copy, Debug, PartialEq, Eq, Structural)]
pub struct DnssecConfig {
    pub enabled: bool,
    pub strict: bool,
}

/// The configuration of DNS over TLS.
pub struct DotConfig {
    pub enabled: bool,
    pub port: u16,
    pub bind_addr: String,
    pub cert_path: Option<String>,
    pub key_path: Option<String>,
    pub proxy_protocol: ProxyProtocolConfig,
}

/// The configuration of the interface for phones.
pub struct MobileConfig {
    pub enabled: bool,
    pub port: u16,
    pub bind_addr: String,
}

/// The configuration.
pub struct Config {
    pub server: ServerConfig,
    pub upstream: UpstreamConfig,
    pub cache: CacheConfig,
    pub blocking: BlockingConfig,
    pub zones: Vec<ZoneRecord>,
    pub proxy: ProxyConfig,
    pub services: Vec<ServiceConfig>,
    pub lan: LanConfig,
    pub dnssec: DnssecConfig,
    pub dot: DotConfig,
    pub mobile: MobileConfig,
    pub forwarding: Vec<ForwardingRuleConfig>,
    pub client_policy: Vec<ClientPolicyConfig>,
}

/// A configuration, the file it is from, and whether that was found.
pub struct ConfigLoad {
    pub config: Config,
    pub path: String,
    pub found: bool,
}

impl ProxyProtocolConfig {
    /// Whether everything is as it is where nothing is configured.
    pub open spec fn at_defaults(&self) -> bool {
        &&& self.from@.len() == 0
        &&& self.header_timeout_ms == 5000
    }
}

impl Default for ProxyProtocolConfig {
    fn default() -> (r: Self)
        ensures
            r.at_defaults(),
    {
        ProxyProtocolConfig {
            from: Vec::new(),
            header_timeout_ms: default_pp_header_timeout_ms(),
        }
    }
}

impl ServerConfig {
    /// Whether everything is as it is where nothing is configured, on a system
    /// other than Windows.
    pub open spec fn at_defaults(&self) -> bool {
        self.at_defaults_on(Platform::Linux)
    }

    /// Whether everything is as it is on a system where nothing is configured.
    pub open spec fn at_defaults_on(&self, platform: Platform) -> bool {
        &&& texts(self.bind_addr@) == default_bind_addrs_list(platform)
        &&& self.api_port == DEFAULT_API_PORT
        &&& self.api_bind_addr@ == "127.0.0.1"@
        &&& self.data_dir is None
        &&& !self.filter_aaaa
        &&& self.proxy_protocol.at_defaults()
        &&& self.allow_from@.len() == 0
        &&& !self.rebind_protect
        &&& self.rebind_allowlist@.len() == 0
        &&& self.rebind_private_ranges@.len() == 0
    }

    /// What holds on a system where nothing is configured.
    pub fn default_on(platform: Platform) -> (r: Self)
        ensures
            r.at_defaults_on(platform),
    {
        ServerConfig {
            bind_addr: default_bind_addrs(platform),
            api_port: default_api_port(),
            api_bind_addr: default_api_bind_addr(),
            data_dir: None,
            filter_aaaa: false,
            proxy_protocol: ProxyProtocolConfig::default(),
            allow_from: Vec::new(),
            rebind_protect: false,
            rebind_allowlist: Vec::new(),
            rebind_private_ranges: Vec::new(),
        }
    }
}

impl Default for ServerConfig {
    fn default() -> (r: Self)
        ensures
            r.at_defaults(),
    {
        Self::default_on(Platform::Linux)
    }
}

impl UpstreamConfig {
    /// Whether everything is as it is where nothing is configured.
    pub open spec fn at_defaults(&self) -> bool {
        &&& self.mode == UpstreamMode::Forward
        &&& self.address@.len() == 0
        &&& self.port == 53
        &&& self.fallback@.len() == 0
        &&& self.timeout_ms == 5000
        &&& self.hedge_ms == 0
        &&& texts(self.root_hints@) == default_root_hints_list()
        &&& texts(self.prime_tlds@) == default_prime_tlds_list()
        &&& self.srtt
        &&& self.relay is None
        &&& self.target is None
        &&& self.strict is None
        &&& self.relay_ip is None
        &&& self.target_ip is None
    }
}

impl Default for UpstreamConfig {
    fn default() -> (r: Self)
        ensures
            r.at_defaults(),
    {
        UpstreamConfig {
            mode: UpstreamMode::default(),
            address: Vec::new(),
            port: default_upstream_port(),
            fallback: Vec::new(),
            timeout_ms: default_timeout_ms(),
            hedge_ms: default_hedge_ms(),
            root_hints: default_root_hints(),
            prime_tlds: default_prime_tlds(),
            srtt: default_srtt(),
            relay: None,
            target: None,
            strict: None,
            relay_ip: None,
            target_ip: None,
        }
    }
}

impl CacheConfig {
    /// Whether everything is as it is where nothing is configured.
    pub open spec fn at_defaults(&self) -> bool {
        &&& self.max_entries == 100_000
        &&& self.min_ttl == 60
        &&& self.max_ttl == 86400
        &&& self.warm@.len() == 0
    }
}

impl Default for CacheConfig {
    fn default() -> (r: Self)
        ensures
            r.at_defaults(),
    {
        CacheConfig {
            max_entries: default_max_entries(),
            min_ttl: default_min_ttl(),
            max_ttl: default_max_ttl(),
            warm: Vec::new(),
        }
    }
}

impl BlockingConfig {
    /// Whether everything is as it is where nothing is configured.
    pub open spec fn at_defaults(&self) -> bool {
        &&& self.enabled
        &&& texts(self.lists@) == default_blocklists_list()
        &&& self.refresh_hours == 24
        &&& self.allowlist@.len() == 0
    }
}

impl Default for BlockingConfig {
    fn default() -> (r: Self)
        ensures
            r.at_defaults(),
    {
        BlockingConfig {
            enabled: default_blocking_enabled(),
            lists: default_blocklists(),
            refresh_hours: default_refresh_hours(),
            allowlist: Vec::new(),
        }
    }
}

impl ProxyConfig {
    /// Whether everything is as it is where nothing is configured.
    pub open spec fn at_defaults(&self) -> bool {
        &&& self.enabled
        &&& self.port == 80
        &&& self.tls_port == 443
        &&& self.tld@ == "numa"@
        &&& self.bind_addr@ == "127.0.0.1"@
        &&& self.cert_path is None
        &&& self.key_path is None
        &&& self.proxy_protocol.at_defaults()
    }
}

impl Default for ProxyConfig {
    fn default() -> (r: Self)
        ensures
            r.at_defaults(),
    {
        ProxyConfig {
            enabled: default_proxy_enabled(),
            port: default_proxy_port(),
            tls_port: default_proxy_tls_port(),
            tld: default_proxy_tld(),
            bind_addr: default_proxy_bind_addr(),
            cert_path: None,
            key_path: None,
            proxy_protocol: ProxyProtocolConfig::default(),
        }
    }
}

impl LanConfig {
    /// Whether everything is as it is where nothing is configured.
    pub open spec fn at_defaults(&self) -> bool {
        &&& !self.enabled
        &&& self.broadcast_interval_secs == 30
        &&& self.peer_timeout_secs == 90
    }
}

impl Default for LanConfig {
    fn default() -> (r: Self)
        ensures
            r.at_defaults(),
    {
        LanConfig {
            enabled: default_lan_enabled(),
            broadcast_interval_secs: default_lan_broadcast_interval(),
            peer_timeout_secs: default_lan_peer_timeout(),
        }
    }
}

impl DnssecConfig {
    /// Whether everything is as it is where nothing is configured.
    pub open spec fn at_defaults(&self) -> bool {
        &&& !self.enabled
        &&& !self.strict
    }
}

impl Default for DnssecConfig {
    fn default() -> (r: Self)
        ensures
            r.at_defaults(),
    {
        DnssecConfig {
            enabled: false,
            strict: false,
        }
    }
}

impl DotConfig {
    /// Whether everything is as it is where nothing is configured.
    pub open spec fn at_defaults(&self) -> bool {
        &&& self.enabled
        &&& self.port == 853
        &&& self.bind_addr@ == "0.0.0.0"@
        &&& self.cert_path is None
        &&& self.key_path is None
        &&& self.proxy_protocol.at_defaults()
    }
}

impl Default for DotConfig {
    fn default() -> (r: Self)
        ensures
            r.at_defaults(),
    {
        DotConfig {
            enabled: default_dot_enabled(),
            port: default_dot_port(),
            bind_addr: default_dot_bind_addr(),
            cert_path: None,
            key_path: None,
            proxy_protocol: ProxyProtocolConfig::default(),
        }
    }
}

impl MobileConfig {
    /// Whether everything is as it is where nothing is configured.
    pub open spec fn at_defaults(&self) -> bool {
        &&& !self.enabled
        &&& self.port == 8765
        &&& self.bind_addr@ == "0.0.0.0"@
    }
}

impl Default for MobileConfig {
    fn default() -> (r: Self)
        ensures
            r.at_defaults(),
    {
        MobileConfig {
            enabled: false,
            port: default_mobile_port(),
            bind_addr: default_mobile_bind_addr(),
        }
    }
}

impl Config {
    /// Whether everything is as it is where nothing is configured.
    pub open spec fn at_defaults(&self) -> bool {
        &&& self.server.at_defaults()
        &&& self.upstream.at_defaults()
        &&& self.cache.at_defaults()
        &&& self.blocking.at_defaults()
        &&& self.zones@.len() == 0
        &&& self.proxy.at_defaults()
        &&& self.services@.len() == 0
        &&& self.lan.at_defaults()
        &&& self.dnssec.at_defaults()
        &&& self.dot.at_defaults()
        &&& self.mobile.at_defaults()
        &&& self.forwarding@.len() == 0
        &&& self.client_policy@.len() == 0
    }
}

impl Default for Config {
    fn default() -> (r: Self)
        ensures
            r.at_defaults(),
    {
        Config {
            server: ServerConfig::default(),
            upstream: UpstreamConfig::default(),
            cache: CacheConfig::default(),
            blocking: BlockingConfig::default(),
            zones: Vec::new(),
            proxy: ProxyConfig::default(),
            services: Vec::new(),
            lan: LanConfig::default(),
            dnssec: DnssecConfig::default(),
            dot: DotConfig::default(),
            mobile: MobileConfig::default(),
            forwarding: Vec::new(),
            client_policy: Vec::new(),
        }
    }
}

} // verus!
