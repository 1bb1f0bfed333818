//! Starting the server: what its configuration and what was found on the host
//! come to, and what the running server watches for.
use vstd::prelude::*;

use crate::acl::{bad_entry, first_bad, nets_of, AllowFromAcl};
use crate::blocklist::BlocklistStore;
use crate::client_policy::ClientPolicySet;
use crate::config::{
    configured_rules, merge_forwarding_rules, Config, ServiceConfig, UpstreamConfig, UpstreamMode,
};
use crate::ctx::ServerCtx;
use crate::domain_list::{no_domains, PersistedDomainList};
use crate::forward::{
    list_outcome, named_upstreams, upstreams, PoolView, Upstream, UpstreamPool, UpstreamView,
};
use crate::question_set::{KeyView, QuestionSet};
use crate::net::{IpAddr, Ipv4Addr, SocketAddr};
use crate::query_log::QueryLog;
use crate::rebind::{default_ranges, RebindFilter};
use crate::service_store::{
    copy_routes, routes, services, text_in, ServiceEntry, ServiceStore, ServiceView, StoreView,
};
use crate::stats::ServerStats;
use crate::system_dns::{rules, ForwardingRule};
use crate::text::{concat, copy_texts, lowercase, texts};
use crate::zone::{build_zone_map, zones_of, ZoneError, ZoneFault, ZoneView};

verus! {

/// The upstream where the system's cannot be found out.
pub const DOH_FALLBACK: &'static str = "https://9.9.9.9/dns-query";

/// The upstream where the system's cannot be found out while the server runs.
pub const QUAD9_IP: &'static str = "9.9.9.9";

/// The upstreams that the server starts with.
pub struct UpstreamChoice {
    pub mode: UpstreamMode,
    /// Whether the upstream is the system's, and is to follow it.
    pub auto: bool,
    pub pool: UpstreamPool,
    pub label: String,
}

/// The upstreams that the server starts with.
pub struct ChoiceView {
    pub mode: UpstreamMode,
    pub auto: bool,
    pub pool: PoolView,
    pub label: Seq<char>,
}

impl View for UpstreamChoice {
    type V = ChoiceView;

    open spec fn view(&self) -> ChoiceView {
        ChoiceView {
            mode: self.mode,
            auto: self.auto,
            pool: self.pool@,
            label: self.label@,
        }
    }
}

/// The upstreams to ask where those of the first list fail: the second list, and
/// for each upstream of the first that is asked over UDP, the same over TCP.
pub open spec fn with_siblings(primary: Seq<UpstreamView>, fallback: Seq<UpstreamView>) -> Seq<
    UpstreamView,
>
    decreases primary.len(),
{
    if primary.len() == 0 {
        fallback
    } else {
        let before = with_siblings(primary.drop_last(), fallback);
        match primary.last() {
            UpstreamView::Udp(a) => if before.contains(UpstreamView::Tcp(a)) {
                before
            } else {
                before.push(UpstreamView::Tcp(a))
            },
            _ => before,
        }
    }
}

/// The choice of resolving from the root down, which asks no upstream.
pub open spec fn recursive_choice() -> ChoiceView {
    ChoiceView {
        mode: UpstreamMode::Recursive,
        auto: false,
        pool: PoolView {
            primary: seq![
                UpstreamView::Udp(SocketAddr { ip: IpAddr::V4(Ipv4Addr { bits: 0 }), port: 0, scope: 0 }),
            ],
            fallback: Seq::empty(),
        },
        label: "recursive (root hints)"@,
    }
}

/// The entries that name the upstreams: those that are configured; else the
/// system's, the network's, or a public one.
pub open spec fn upstream_entries(
    configured: Seq<Seq<char>>,
    system: Option<Seq<char>>,
    network: Option<Seq<char>>,
) -> Seq<Seq<char>> {
    if configured.len() > 0 {
        configured
    } else {
        seq![
            match (system, network) {
                (Some(s), _) => s,
                (None, Some(n)) => n,
                (None, None) => DOH_FALLBACK@,
            },
        ]
    }
}

/// A pool with its text.
pub open spec fn pool_choice(mode: UpstreamMode, auto: bool, pool: PoolView) -> ChoiceView {
    ChoiceView { mode, auto, pool, label: pool.shown() }
}

/// The upstreams that the server starts with, or the message about the
/// configuration. In automatic mode, a probe has found out whether the servers
/// of the root can be reached.
pub open spec fn upstream_choice(
    c: &UpstreamConfig,
    system: Option<Seq<char>>,
    network: Option<Seq<char>>,
    probe_ok: bool,
) -> Result<ChoiceView, Seq<char>> {
    match c.mode {
        UpstreamMode::Recursive => Ok(recursive_choice()),
        UpstreamMode::Auto => if probe_ok {
            Ok(recursive_choice())
        } else {
            Ok(
                ChoiceView {
                    mode: UpstreamMode::Forward,
                    auto: false,
                    pool: PoolView {
                        primary: seq![UpstreamView::Doh(DOH_FALLBACK@)],
                        fallback: Seq::empty(),
                    },
                    label: DOH_FALLBACK@,
                },
            )
        },
        UpstreamMode::Forward => match (
            list_outcome(upstream_entries(texts(c.address@), system, network), c.port),
            list_outcome(texts(c.fallback@), c.port),
        ) {
            (Err(m), _) => Err(m),
            (Ok(_), Err(m)) => Err(m),
            (Ok(p), Ok(f)) => Ok(
                pool_choice(
                    UpstreamMode::Forward,
                    c.address@.len() == 0,
                    PoolView { primary: p, fallback: with_siblings(p, f) },
                ),
            ),
        },
        UpstreamMode::Odoh => match c.odoh() {
            Err(m) => Err(m),
            Ok(o) => {
                let primary = seq![UpstreamView::Odoh(o.relay_url, o.target_host, o.target_path)];
                if o.strict {
                    Ok(
                        pool_choice(
                            UpstreamMode::Odoh,
                            false,
                            PoolView { primary, fallback: Seq::empty() },
                        ),
                    )
                } else {
                    match list_outcome(texts(c.fallback@), c.port) {
                        Err(m) => Err(m),
                        Ok(f) => Ok(
                            pool_choice(
                                UpstreamMode::Odoh,
                                false,
                                PoolView { primary, fallback: f },
                            ),
                        ),
                    }
                }
            },
        },
    }
}

fn has_tcp(list: &Vec<Upstream>, a: SocketAddr) -> (b: bool)
    ensures
        b == upstreams(list@).contains(UpstreamView::Tcp(a)),
{
    let mut i: usize = 0;
    while i < list.len()
        invariant
            i <= list.len(),
            forall|j: int| 0 <= j < i ==> (#[trigger] upstreams(list@)[j]) != UpstreamView::Tcp(a),
        decreases list.len() - i,
    {
        assert(upstreams(list@)[i as int] == list@[i as int]@);
        if let Upstream::Tcp(b) = &list[i] {
            if *b == a {
                return true;
            }
        }
        i += 1;
    }
    false
}

fn add_siblings(primary: &Vec<Upstream>, fallback: &mut Vec<Upstream>)
    ensures
        upstreams(final(fallback)@) == with_siblings(
            upstreams(primary@),
            upstreams(old(fallback)@),
        ),
{
    let ghost all = upstreams(primary@);
    let ghost start = upstreams(fallback@);
    let mut i: usize = 0;
    assert(all.subrange(0, 0) =~= Seq::<UpstreamView>::empty());
    while i < primary.len()
        invariant
            i <= primary.len(),
            all == upstreams(primary@),
            upstreams(fallback@) == with_siblings(all.subrange(0, i as int), start),
        decreases primary.len() - i,
    {
        proof {
            let more = all.subrange(0, i + 1);
            assert(more.drop_last() =~= all.subrange(0, i as int));
            assert(more.last() == primary@[i as int]@);
        }
        if let Upstream::Udp(a) = &primary[i] {
            if !has_tcp(fallback, *a) {
                let ghost before = upstreams(fallback@);
                fallback.push(Upstream::Tcp(*a));
                assert(upstreams(fallback@) =~= before.push(UpstreamView::Tcp(*a)));
            }
        }
        i += 1;
    }
    assert(all.subrange(0, all.len() as int) =~= all);
}

fn choose_recursive() -> (r: UpstreamChoice)
    ensures
        r@ == recursive_choice(),
{
    let mut primary: Vec<Upstream> = Vec::new();
    primary.push(Upstream::Udp(SocketAddr { ip: IpAddr::V4(Ipv4Addr { bits: 0 }), port: 0, scope: 0 }));
    let none: Vec<Upstream> = Vec::new();
    let pool = UpstreamPool::new(primary, none);
    assert(pool@.primary =~= recursive_choice().pool.primary);
    assert(pool@.fallback =~= recursive_choice().pool.fallback);
    UpstreamChoice {
        mode: UpstreamMode::Recursive,
        auto: false,
        pool,
        label: "recursive (root hints)".to_owned(),
    }
}

fn choose_pool(mode: UpstreamMode, auto: bool, primary: Vec<Upstream>, fallback: Vec<Upstream>) -> (r:
    UpstreamChoice)
    ensures
        r@ == pool_choice(
            mode,
            auto,
            PoolView { primary: upstreams(primary@), fallback: upstreams(fallback@) },
        ),
{
    let pool = UpstreamPool::new(primary, fallback);
    let label = pool.label();
    UpstreamChoice { mode, auto, pool, label }
}

fn entries_of(configured: &Vec<String>, system: &Option<String>, network: &Option<String>) -> (v: Vec<
    String,
>)
    ensures
        texts(v@) == upstream_entries(texts(configured@), text_in(*system), text_in(*network)),
{
    assert(texts(configured@).len() == configured@.len());
    if configured.len() > 0 {
        return copy_texts(configured);
    }
    let one = match system {
        Some(s) => s.clone(),
        None => match network {
            Some(n) => n.clone(),
            None => DOH_FALLBACK.to_owned(),
        },
    };
    let mut v: Vec<String> = Vec::new();
    v.push(one);
    assert(texts(v@) =~= upstream_entries(texts(configured@), text_in(*system), text_in(*network)));
    v
}

/// The upstreams that the server starts with, or the message about the
/// configuration.
pub fn resolve_upstream_pool(
    c: &UpstreamConfig,
    system: &Option<String>,
    network: &Option<String>,
    probe_ok: bool,
) -> (r: Result<UpstreamChoice, String>)
    ensures
        upstream_choice(c, text_in(*system), text_in(*network), probe_ok) == (match r {
            Ok(u) => Ok::<ChoiceView, Seq<char>>(u@),
            Err(m) => Err::<ChoiceView, Seq<char>>(m@),
        }),
{
    match c.mode {
        UpstreamMode::Recursive => Ok(choose_recursive()),
        UpstreamMode::Auto => {
            if probe_ok {
                return Ok(choose_recursive());
            }
            let mut primary: Vec<Upstream> = Vec::new();
            primary.push(Upstream::Doh { url: DOH_FALLBACK.to_owned() });
            let none: Vec<Upstream> = Vec::new();
            let pool = UpstreamPool::new(primary, none);
            assert(pool@.primary =~= seq![UpstreamView::Doh(DOH_FALLBACK@)]);
            assert(pool@.fallback =~= Seq::<UpstreamView>::empty());
            Ok(
                UpstreamChoice {
                    mode: UpstreamMode::Forward,
                    auto: false,
                    pool,
                    label: DOH_FALLBACK.to_owned(),
                },
            )
        },
        UpstreamMode::Forward => {
            let entries = entries_of(&c.address, system, network);
            let primary = named_upstreams(&entries, c.port)?;
            let mut fallback = named_upstreams(&c.fallback, c.port)?;
            add_siblings(&primary, &mut fallback);
            Ok(choose_pool(UpstreamMode::Forward, c.address.len() == 0, primary, fallback))
        },
        UpstreamMode::Odoh => {
            let o = c.odoh_upstream()?;
            let mut primary: Vec<Upstream> = Vec::new();
            let ghost view = o@;
            primary.push(
                Upstream::Odoh {
                    relay_url: o.relay_url,
                    target_host: o.target_host,
                    target_path: o.target_path,
                },
            );
            assert(upstreams(primary@) =~= seq![
                UpstreamView::Odoh(view.relay_url, view.target_host, view.target_path),
            ]);
            let fallback = if o.strict {
                let none: Vec<Upstream> = Vec::new();
                assert(upstreams(none@) =~= Seq::<UpstreamView>::empty());
                none
            } else {
                named_upstreams(&c.fallback, c.port)?
            };
            Ok(choose_pool(UpstreamMode::Odoh, false, primary, fallback))
        },
    }
}

/// Each upstream that is asked over UDP can also be asked over TCP, where the
/// server forwards.
pub proof fn udp_has_tcp_sibling(primary: Seq<UpstreamView>, fallback: Seq<UpstreamView>, i: int)
    requires
        0 <= i < primary.len(),
        primary[i] is Udp,
    ensures
        with_siblings(primary, fallback).contains(UpstreamView::Tcp(primary[i]->Udp_0)),
    decreases primary.len(),
{
    let before = with_siblings(primary.drop_last(), fallback);
    let tcp = UpstreamView::Tcp(primary[i]->Udp_0);
    if i == primary.len() - 1 {
        if !before.contains(tcp) {
            let all = before.push(tcp);
            assert(all[all.len() - 1] == tcp);
        }
    } else {
        udp_has_tcp_sibling(primary.drop_last(), fallback, i);
        let k = choose|k: int| 0 <= k < before.len() && before[k] == tcp;
        assert(with_siblings(primary, fallback)[k] == tcp);
    }
}

/// The relay is never passed by where it must be used: then there is no other
/// upstream.
pub proof fn strict_relay_has_no_fallback(
    c: &UpstreamConfig,
    system: Option<Seq<char>>,
    network: Option<Seq<char>>,
    probe_ok: bool,
)
    requires
        c.mode is Odoh,
        c.odoh() matches Ok(o) && o.strict,
    ensures
        upstream_choice(c, system, network, probe_ok) matches Ok(u) && u.pool.fallback.len() == 0,
{
}

/// What was found on the host.
pub struct Discovered {
    pub default_upstream: Option<String>,
    pub network_upstream: Option<String>,
    pub rules: Vec<ForwardingRule>,
    pub probe_ok: bool,
    pub lan_ip: Option<Ipv4Addr>,
}

/// What was kept from before.
pub struct Kept {
    pub blocking_allow: Vec<String>,
    pub blocking_block: Vec<String>,
    pub rebind_allow: Vec<String>,
    pub services: Vec<ServiceEntry>,
}

/// Why the server cannot start.
#[derive(Debug)]
pub enum StartError {
    Upstream(String),
    Forwarding(String),
    AllowFrom(String),
    ClientPolicy(String),
    Rebind(String),
    /// There is no address to listen at.
    NoBindAddr,
    Zones(ZoneError),
}

/// The store with the services of the configuration, in their order.
pub open spec fn with_configured(store: StoreView, cs: Seq<ServiceConfig>) -> StoreView
    decreases cs.len(),
{
    if cs.len() == 0 {
        store
    } else {
        let before = with_configured(store, cs.drop_last());
        let c = cs.last();
        StoreView {
            services: before.services.insert(
                lowercase(c.name@),
                ServiceView {
                    name: lowercase(c.name@),
                    target_port: c.target_port,
                    target_host: text_in(c.target_host),
                    routes: routes(c.routes@),
                },
            ),
            config: before.config.insert(lowercase(c.name@)),
        }
    }
}

/// The services that the server starts with: its own, those of the
/// configuration, and those that were kept.
pub open spec fn starting_services(
    api_port: u16,
    configured: Seq<ServiceConfig>,
    kept: Seq<ServiceView>,
) -> StoreView {
    let own = StoreView {
        services: Map::<Seq<char>, ServiceView>::empty().insert(
            lowercase("numa"@),
            ServiceView {
                name: lowercase("numa"@),
                target_port: api_port,
                target_host: None,
                routes: Seq::empty(),
            },
        ),
        config: Set::<Seq<char>>::empty().insert(lowercase("numa"@)),
    };
    with_configured(own, configured).with_all_persisted(kept)
}

/// The services that the server starts with.
pub fn start_services(
    api_port: u16,
    configured: &Vec<ServiceConfig>,
    kept: &Vec<ServiceEntry>,
) -> (r: ServiceStore)
    ensures
        r.wf(),
        r@ == starting_services(api_port, configured@, services(kept@)),
{
    let mut store = ServiceStore::new();
    let none: Vec<crate::service_store::RouteEntry> = Vec::new();
    assert(routes(none@) =~= Seq::<crate::service_store::RouteView>::empty());
    store.insert_from_config("numa", api_port, None, none);
    let ghost own = store@;
    let mut i: usize = 0;
    assert(configured@.subrange(0, 0) =~= Seq::<ServiceConfig>::empty());
    while i < configured.len()
        invariant
            i <= configured.len(),
            store.wf(),
            store@ == with_configured(own, configured@.subrange(0, i as int)),
        decreases configured.len() - i,
    {
        proof {
            let more = configured@.subrange(0, i + 1);
            assert(more.drop_last() =~= configured@.subrange(0, i as int));
            assert(more.last() == configured@[i as int]);
        }
        let c = &configured[i];
        let host = match &c.target_host {
            Some(h) => Some(h.clone()),
            None => None,
        };
        store.insert_from_config(c.name.as_str(), c.target_port, host, copy_routes(&c.routes));
        i += 1;
    }
    assert(configured@.subrange(0, configured@.len() as int) =~= configured@);
    store.load_persisted(kept);
    store
}

/// The proxy's domain behind a dot; nothing where there is no such domain.
pub open spec fn suffix_of(tld: Seq<char>) -> Seq<char> {
    if tld.len() == 0 {
        Seq::empty()
    } else {
        "."@ + tld
    }
}

/// The proxy's domain behind a dot.
pub fn tld_suffix(tld: &str) -> (s: String)
    ensures
        s@ == suffix_of(tld@),
{
    if tld.is_empty() {
        String::new()
    } else {
        concat(".", tld)
    }
}

/// The filter of the configuration, or the reason why there is none.
fn start_rebind(config: &Config, kept: &Vec<String>) -> (r: Result<RebindFilter, StartError>)
    ensures
        match r {
            Ok(f) => rebind_as_configured(f, config, texts(kept@)),
            Err(e) => e matches StartError::Rebind(m) && rebind_complains(config, m@),
        },
{
    let allow = PersistedDomainList::new(&config.server.rebind_allowlist, kept);
    match RebindFilter::new(
        config.server.rebind_protect,
        allow,
        &config.server.rebind_private_ranges,
    ) {
        Ok(f) => Ok(f),
        Err(m) => Err(StartError::Rebind(concat("invalid [server] rebind config: ", m.as_str()))),
    }
}

/// The ranges that the filter of a configuration is to use.
pub open spec fn rebind_ranges(config: &Config) -> Seq<Seq<char>> {
    if config.server.rebind_private_ranges@.len() == 0 {
        default_ranges()
    } else {
        texts(config.server.rebind_private_ranges@)
    }
}

/// Whether a filter is that of a configuration, with exceptions that were kept.
pub open spec fn rebind_as_configured(f: RebindFilter, config: &Config, kept: Seq<Seq<char>>) -> bool {
    &&& f.wf()
    &&& f.enabled == config.server.rebind_protect
    &&& f.allowlist@ == no_domains().with_seeds(
        texts(config.server.rebind_allowlist@),
    ).with_persisted(kept)
    &&& texts(f.range_strings@) == rebind_ranges(config)
    &&& nets_of(f.range_strings@, f.ranges.include_nets@)
    &&& f.ranges.exclude_nets@.len() == 0
}

/// Whether a message is about the first range that stands for no network.
pub open spec fn rebind_complains(config: &Config, m: Seq<char>) -> bool {
    exists|v: Seq<String>, i: int|
        texts(v) == rebind_ranges(config) && #[trigger] first_bad(v, i) && m
            == "invalid [server] rebind config: "@ + bad_entry("rebind_private_ranges"@, v[i]@)
}

/// The blocklist that the server starts with, before any list is loaded.
fn start_blocklist(config: &Config, allow: &Vec<String>, block: &Vec<String>) -> (r: BlocklistStore)
    ensures
        blocklist_as_configured(r, config, texts(allow@), texts(block@)),
{
    let exceptions = PersistedDomainList::new(&config.blocking.allowlist, allow);
    let none: Vec<String> = Vec::new();
    assert(texts(none@) =~= Seq::<Seq<char>>::empty());
    let extra = PersistedDomainList::new(&none, block);
    let mut r = BlocklistStore::new(exceptions, extra);
    if !config.blocking.enabled {
        r.set_enabled(false);
    }
    r
}

/// Whether a blocklist is that of a configuration, with what was kept.
pub open spec fn blocklist_as_configured(
    b: BlocklistStore,
    config: &Config,
    allow: Seq<Seq<char>>,
    block: Seq<Seq<char>>,
) -> bool {
    &&& b.enabled == config.blocking.enabled
    &&& b.domains@ == Set::<Seq<char>>::empty()
    &&& b.exceptions@ == no_domains().with_seeds(texts(config.blocking.allowlist@)).with_persisted(
        allow,
    )
    &&& b.extra@ == no_domains().with_seeds(Seq::empty()).with_persisted(block)
}

/// Whether the upstreams, the rules and so on of a configuration are sound up to
/// a stage of starting.
pub open spec fn sound_to(config: &Config, found: &Discovered, stage: int) -> bool {
    &&& stage > 0 ==> upstream_choice(
        &config.upstream,
        text_in(found.default_upstream),
        text_in(found.network_upstream),
        found.probe_ok,
    ) is Ok
    &&& stage > 1 ==> configured_rules(config.forwarding@) is Some
    &&& stage > 2 ==> forall|i: int| !#[trigger] first_bad(config.server.allow_from@, i)
    &&& stage > 3 ==> forall|i: int|
        0 <= i < config.client_policy@.len() ==> (#[trigger] config.client_policy@[i]).valid()
    &&& stage > 4 ==> forall|v: Seq<String>, i: int|
        texts(v) == rebind_ranges(config) ==> !#[trigger] first_bad(v, i)
    &&& stage > 5 ==> config.server.bind_addr@.len() > 0
}

/// What the server knows when it starts, or the first reason why it cannot.
pub fn build_ctx(config: &Config, found: Discovered, kept: &Kept, now: u64) -> (r: Result<
    (ServerCtx, String),
    StartError,
>)
    ensures
        match r {
            Ok((ctx, label)) => {
                &&& sound_to(config, &found, 6)
                &&& ctx.wf()
                &&& zones_of(config.zones@) == Ok::<ZoneView, ZoneFault>(ctx.zone_map@)
                &&& upstream_choice(
                    &config.upstream,
                    text_in(found.default_upstream),
                    text_in(found.network_upstream),
                    found.probe_ok,
                ) == Ok::<ChoiceView, Seq<char>>(
                    ChoiceView {
                        mode: ctx.upstream_mode,
                        auto: ctx.upstream_auto,
                        pool: ctx.upstream_pool@,
                        label: label@,
                    },
                )
                &&& configured_rules(config.forwarding@) matches Some(c) && rules(
                    ctx.forwarding_rules@,
                ) == c + rules(found.rules@)
                &&& nets_of(config.server.allow_from@, ctx.allow_from.matcher.include_nets@)
                &&& ctx.allow_from.matcher.exclude_nets@.len() == 0
                &&& ctx.client_policy.rules@.len() == config.client_policy@.len()
                &&& forall|i: int|
                    0 <= i < config.client_policy@.len() ==> (
                    #[trigger] config.client_policy@[i]).gives(ctx.client_policy.rules@[i])
                &&& rebind_as_configured(ctx.rebind, config, texts(kept.rebind_allow@))
                &&& blocklist_as_configured(
                    ctx.blocklist,
                    config,
                    texts(kept.blocking_allow@),
                    texts(kept.blocking_block@),
                )
                &&& ctx.services@ == starting_services(
                    config.server.api_port,
                    config.services@,
                    services(kept.services@),
                )
                &&& ctx.refreshing@ == Set::<KeyView>::empty()
                &&& ctx.inflight@ == Set::<KeyView>::empty()
                &&& ctx.query_log.entries@.len() == 0
                &&& ctx.query_log.capacity == 1000
                &&& ctx.query_log.next_seq == 0
                &&& ctx.stats == ServerStats::fresh(now)
                &&& ctx.timeout_ms == config.upstream.timeout_ms
                &&& ctx.hedge_ms == (if ctx.upstream_mode is Odoh {
                    0
                } else {
                    config.upstream.hedge_ms
                })
                &&& ctx.upstream_port == config.upstream.port
                &&& ctx.lan_ip == (match found.lan_ip {
                    Some(a) => a,
                    None => Ipv4Addr { bits: 0x7f00_0001 },
                })
                &&& ctx.proxy_tld@ == config.proxy.tld@
                &&& ctx.proxy_tld_suffix@ == suffix_of(config.proxy.tld@)
                &&& ctx.lan_enabled == config.lan.enabled
                &&& ctx.dnssec_enabled == config.dnssec.enabled
                &&& ctx.dnssec_strict == config.dnssec.strict
                &&& ctx.filter_aaaa == config.server.filter_aaaa
            },
            Err(StartError::Upstream(m)) => upstream_choice(
                &config.upstream,
                text_in(found.default_upstream),
                text_in(found.network_upstream),
                found.probe_ok,
            ) == Err::<ChoiceView, Seq<char>>(m@),
            Err(StartError::Forwarding(m)) => sound_to(config, &found, 1) && configured_rules(
                config.forwarding@,
            ) is None && exists|i: int|
                0 <= i < config.forwarding@.len() && (#[trigger] config.forwarding@[i]).meant()
                    is None && config.forwarding@[i].complains(m@) && (forall|j: int|
                    0 <= j < i ==> (#[trigger] config.forwarding@[j]).meant() is Some),
            Err(StartError::AllowFrom(m)) => sound_to(config, &found, 2) && exists|i: int|
                #[trigger] first_bad(config.server.allow_from@, i) && m@
                    == "invalid [server].allow_from: "@ + bad_entry(
                    "allow_from"@,
                    config.server.allow_from@[i]@,
                ),
            Err(StartError::ClientPolicy(m)) => sound_to(config, &found, 3) && exists|
                i: int,
                e: Seq<char>,
            |
                0 <= i < config.client_policy@.len() && !config.client_policy@[i].valid()
                    && #[trigger] config.client_policy@[i].complains(i, e) && m@
                    == "invalid [[client_policy]]: "@ + e && (forall|j: int|
                    0 <= j < i ==> (#[trigger] config.client_policy@[j]).valid()),
            Err(StartError::Rebind(m)) => sound_to(config, &found, 4) && rebind_complains(
                config,
                m@,
            ),
            Err(StartError::NoBindAddr) => sound_to(config, &found, 5)
                && config.server.bind_addr@.len() == 0,
            Err(StartError::Zones(e)) => sound_to(config, &found, 6) && zones_of(config.zones@)
                == Err::<ZoneView, ZoneFault>(e@),
        },
{
    let choice = match resolve_upstream_pool(
        &config.upstream,
        &found.default_upstream,
        &found.network_upstream,
        found.probe_ok,
    ) {
        Ok(c) => c,
        Err(m) => {
            return Err(StartError::Upstream(m));
        },
    };
    let lan_ip = match found.lan_ip {
        Some(a) => a,
        None => Ipv4Addr { bits: 0x7f00_0001 },
    };
    let forwarding_rules = match merge_forwarding_rules(&config.forwarding, found.rules) {
        Ok(v) => v,
        Err(m) => {
            return Err(StartError::Forwarding(m));
        },
    };
    let allow_from = match AllowFromAcl::from_entries(&config.server.allow_from) {
        Ok(a) => a,
        Err(m) => {
            return Err(
                StartError::AllowFrom(concat("invalid [server].allow_from: ", m.as_str())),
            );
        },
    };
    proof {
        assert forall|i: int| !#[trigger] first_bad(config.server.allow_from@, i) by {
            if 0 <= i < config.server.allow_from@.len() {
                assert(allow_from.matcher.include_nets@[i].wf());
            }
        }
    }
    let client_policy = match ClientPolicySet::from_configs(&config.client_policy) {
        Ok(p) => p,
        Err(m) => {
            return Err(
                StartError::ClientPolicy(concat("invalid [[client_policy]]: ", m.as_str())),
            );
        },
    };
    let rebind = match start_rebind(config, &kept.rebind_allow) {
        Ok(f) => f,
        Err(e) => {
            return Err(e);
        },
    };
    proof {
        assert forall|v: Seq<String>, i: int|
            texts(v) == rebind_ranges(config) implies !#[trigger] first_bad(v, i) by {
            if 0 <= i < v.len() {
                assert(texts(v).len() == v.len());
                assert(texts(rebind.range_strings@).len() == rebind.range_strings@.len());
                assert(texts(v)[i] == v[i]@);
                assert(texts(rebind.range_strings@)[i] == rebind.range_strings@[i]@);
                assert(rebind.ranges.include_nets@[i].wf());
            }
        }
    }
    if config.server.bind_addr.len() == 0 {
        return Err(StartError::NoBindAddr);
    }
    let zone_map = match build_zone_map(&config.zones) {
        Ok(z) => z,
        Err(e) => {
            return Err(StartError::Zones(e));
        },
    };
    let services = start_services(config.server.api_port, &config.services, &kept.services);
    let blocklist = start_blocklist(config, &kept.blocking_allow, &kept.blocking_block);
    let ctx = ServerCtx {
        zone_map,
        refreshing: QuestionSet::new(),
        stats: ServerStats::new(now),
        blocklist,
        query_log: QueryLog::new(1000),
        services,
        forwarding_rules,
        upstream_pool: choice.pool,
        upstream_auto: choice.auto,
        upstream_port: config.upstream.port,
        lan_ip,
        timeout_ms: config.upstream.timeout_ms,
        hedge_ms: choice.mode.hedge_delay(config.upstream.hedge_ms),
        proxy_tld: config.proxy.tld.clone(),
        proxy_tld_suffix: tld_suffix(config.proxy.tld.as_str()),
        lan_enabled: config.lan.enabled,
        upstream_mode: choice.mode,
        inflight: QuestionSet::new(),
        dnssec_enabled: config.dnssec.enabled,
        dnssec_strict: config.dnssec.strict,
        filter_aaaa: config.server.filter_aaaa,
        allow_from,
        client_policy,
        rebind,
    };
    Ok((ctx, choice.label))
}

} // verus!
