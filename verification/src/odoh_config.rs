//! The configuration of oblivious DNS over HTTPS: a relay and a target that no
//! one operator runs.
use vstd::prelude::*;

use crate::config::UpstreamConfig;
use crate::name_set::{is_less, text_less};
use crate::net::{IpAddr, SocketAddr};
use crate::text::{concat, concat3, str_eq};

verus! {

/// The parts of a URL that matter here.
pub struct UrlParts {
    pub scheme: String,
    pub host: Option<String>,
    pub path: String,
    pub port: Option<u16>,
}

/// The parts of a URL that matter here.
pub struct UrlView {
    pub scheme: Seq<char>,
    pub host: Option<Seq<char>>,
    pub path: Seq<char>,
    pub port: Option<u16>,
}

impl View for UrlParts {
    type V = UrlView;

    open spec fn view(&self) -> UrlView {
        UrlView {
            scheme: self.scheme@,
            host: match self.host {
                Some(h) => Some(h@),
                None => None,
            },
            path: self.path@,
            port: self.port,
        }
    }
}

/// The parts of the URL that a text stands for, or the reason why it stands for none.
pub uninterp spec fn url_text(s: Seq<char>) -> Result<UrlView, Seq<char>>;

/// `reqwest::Url::parse`: the scheme, the host, the path, and the port or the
/// known port of the scheme of the URL that the text stands for, or the text of
/// the error. A function of the text alone.
#[verifier::external_body]
fn parse_url(s: &str) -> (r: Result<UrlParts, String>)
    ensures
        match r {
            Ok(u) => url_text(s@) == Ok::<UrlView, Seq<char>>(u@),
            Err(e) => url_text(s@) == Err::<UrlView, Seq<char>>(e@),
        },
{
    let url = reqwest::Url::parse(s).map_err(|e| e.to_string())?;
    Ok(
        UrlParts {
            scheme: url.scheme().to_string(),
            host: url.host_str().map(|h| h.to_string()),
            path: url.path().to_string(),
            port: url.port_or_known_default(),
        },
    )
}

/// The registrable domain of a host, by the public suffix list.
pub uninterp spec fn registrable(host: Seq<char>) -> Option<Seq<char>>;

/// `psl::domain`: the registrable domain of a host by the public suffix list
/// that the crate holds, if it has one. A function of the host alone.
#[verifier::external_body]
fn registrable_domain(host: &str) -> (r: Option<String>)
    ensures
        match r {
            Some(d) => registrable(host@) == Some(d@),
            None => registrable(host@) is None,
        },
{
    let domain = psl::domain(host.as_bytes())?;
    std::str::from_utf8(domain.as_bytes()).ok().map(|d| d.to_owned())
}

/// The registrable domain that two hosts share.
pub open spec fn shared_domain(a: Option<Seq<char>>, b: Option<Seq<char>>) -> Option<Seq<char>> {
    match (a, b) {
        (Some(x), Some(y)) => if x == y {
            Some(x)
        } else {
            None
        },
        _ => None,
    }
}

/// The registrable domain that two hosts share. None where one has none.
pub fn shared_registrable_domain(relay_host: &str, target_host: &str) -> (r: Option<String>)
    ensures
        match r {
            Some(d) => shared_domain(registrable(relay_host@), registrable(target_host@)) == Some(
                d@,
            ),
            None => shared_domain(registrable(relay_host@), registrable(target_host@)) is None,
        },
{
    match (registrable_domain(relay_host), registrable_domain(target_host)) {
        (Some(a), Some(b)) => if str_eq(a.as_str(), b.as_str()) {
            Some(a)
        } else {
            None
        },
        _ => None,
    }
}

/// A relay and a target that can be used.
#[derive(Debug)]
pub struct OdohUpstream {
    pub relay_url: String,
    pub relay_host: String,
    pub target_host: String,
    pub target_path: String,
    pub strict: bool,
    pub relay_bootstrap: Option<SocketAddr>,
    pub target_bootstrap: Option<SocketAddr>,
}

/// A relay and a target that can be used.
pub struct OdohView {
    pub relay_url: Seq<char>,
    pub relay_host: Seq<char>,
    pub target_host: Seq<char>,
    pub target_path: Seq<char>,
    pub strict: bool,
    pub relay_bootstrap: Option<SocketAddr>,
    pub target_bootstrap: Option<SocketAddr>,
}

impl View for OdohUpstream {
    type V = OdohView;

    open spec fn view(&self) -> OdohView {
        OdohView {
            relay_url: self.relay_url@,
            relay_host: self.relay_host@,
            target_host: self.target_host@,
            target_path: self.target_path@,
            strict: self.strict,
            relay_bootstrap: self.relay_bootstrap,
            target_bootstrap: self.target_bootstrap,
        }
    }
}

/// The port of a URL, or that of https.
pub open spec fn port_of(u: UrlView) -> u16 {
    match u.port {
        Some(p) => p,
        None => 443,
    }
}

/// A configured address with the port of its URL.
pub open spec fn bootstrap(ip: Option<IpAddr>, u: UrlView) -> Option<SocketAddr> {
    match ip {
        Some(ip) => Some(SocketAddr { ip, port: port_of(u), scope: 0 }),
        None => None,
    }
}

/// A configured address with the port of its URL.
fn bootstrap_addr(ip: Option<IpAddr>, u: &UrlParts) -> (r: Option<SocketAddr>)
    ensures
        r == bootstrap(ip, u@),
{
    match ip {
        Some(ip) => Some(
            SocketAddr {
                ip,
                port: match u.port {
                    Some(p) => p,
                    None => 443,
                },
                scope: 0,
            },
        ),
        None => None,
    }
}

/// What becomes of a relay and a target whose URLs have these parts, where
/// `shared` is the registrable domain that their hosts share: both must use
/// https and have a host, and the hosts must differ and share no domain.
pub open spec fn odoh_outcome(
    relay: Seq<char>,
    relay_url: UrlView,
    target_url: UrlView,
    shared: Option<Seq<char>>,
    strict: Option<bool>,
    relay_ip: Option<IpAddr>,
    target_ip: Option<IpAddr>,
) -> Result<OdohView, Seq<char>> {
    if relay_url.scheme != "https"@ || target_url.scheme != "https"@ {
        Err("upstream.relay and upstream.target must both use https://"@)
    } else if relay_url.host is None {
        Err("upstream.relay must include a host"@)
    } else if target_url.host is None {
        Err("upstream.target must include a host"@)
    } else {
        let rh = relay_url.host->0;
        let th = target_url.host->0;
        if rh == th {
            Err(
                "upstream.relay and upstream.target resolve to the same host ("@ + rh
                    + "); the privacy property requires distinct operators"@,
            )
        } else if shared is Some {
            Err(
                "upstream.relay ("@ + rh + ") and upstream.target ("@ + th
                    + ") share the registrable domain ("@ + shared->0
                    + "); the privacy property requires distinct operators"@,
            )
        } else {
            Ok(
                OdohView {
                    relay_url: relay,
                    relay_host: rh,
                    target_host: th,
                    target_path: if target_url.path.len() == 0 {
                        "/"@
                    } else {
                        target_url.path
                    },
                    strict: match strict {
                        Some(b) => b,
                        None => true,
                    },
                    relay_bootstrap: bootstrap(relay_ip, relay_url),
                    target_bootstrap: bootstrap(target_ip, target_url),
                },
            )
        }
    }
}

impl UpstreamConfig {
    /// What becomes of a relay and a target whose URLs have these parts, where
    /// `shared` is the registrable domain that their hosts share.
    pub fn odoh_from_urls(
        &self,
        relay: &str,
        relay_url: &UrlParts,
        target_url: &UrlParts,
        shared: &Option<String>,
    ) -> (r: Result<OdohUpstream, String>)
        ensures
            ({
                let out = odoh_outcome(
                    relay@,
                    relay_url@,
                    target_url@,
                    match shared {
                        Some(d) => Some(d@),
                        None => None,
                    },
                    self.strict,
                    self.relay_ip,
                    self.target_ip,
                );
                match r {
                    Ok(o) => out == Ok::<OdohView, Seq<char>>(o@),
                    Err(m) => out == Err::<OdohView, Seq<char>>(m@),
                }
            }),
    {
        if !str_eq(relay_url.scheme.as_str(), "https") || !str_eq(
            target_url.scheme.as_str(),
            "https",
        ) {
            return Err("upstream.relay and upstream.target must both use https://".to_owned());
        }
        let relay_host = match &relay_url.host {
            Some(h) => h.clone(),
            None => {
                return Err("upstream.relay must include a host".to_owned());
            },
        };
        let target_host = match &target_url.host {
            Some(h) => h.clone(),
            None => {
                return Err("upstream.target must include a host".to_owned());
            },
        };
        if str_eq(relay_host.as_str(), target_host.as_str()) {
            return Err(
                concat3(
                    "upstream.relay and upstream.target resolve to the same host (",
                    relay_host.as_str(),
                    "); the privacy property requires distinct operators",
                ),
            );
        }
        match shared {
            Some(d) => {
                let a = concat3(
                    "upstream.relay (",
                    relay_host.as_str(),
                    ") and upstream.target (",
                );
                let b = concat3(
                    a.as_str(),
                    target_host.as_str(),
                    ") share the registrable domain (",
                );
                return Err(
                    concat3(
                        b.as_str(),
                        d.as_str(),
                        "); the privacy property requires distinct operators",
                    ),
                );
            },
            None => {},
        }
        let target_path = if target_url.path.as_str().is_empty() {
            "/".to_owned()
        } else {
            target_url.path.clone()
        };
        Ok(
            OdohUpstream {
                relay_url: relay.to_owned(),
                relay_host,
                target_host,
                target_path,
                strict: match self.strict {
                    Some(b) => b,
                    None => true,
                },
                relay_bootstrap: bootstrap_addr(self.relay_ip, relay_url),
                target_bootstrap: bootstrap_addr(self.target_ip, target_url),
            },
        )
    }

    /// The relay and target that are configured, or what is wrong with them.
    pub open spec fn odoh(&self) -> Result<OdohView, Seq<char>> {
        match (self.relay, self.target) {
            (None, _) => Err("mode = \"odoh\" requires upstream.relay"@),
            (Some(_), None) => Err("mode = \"odoh\" requires upstream.target"@),
            (Some(relay), Some(target)) => match (url_text(relay@), url_text(target@)) {
                (Err(e), _) => Err(
                    "upstream.relay invalid URL '"@ + relay@ + "': "@ + e,
                ),
                (Ok(_), Err(e)) => Err("upstream.target invalid URL '"@ + target@ + "': "@ + e),
                (Ok(r), Ok(t)) => odoh_outcome(
                    relay@,
                    r,
                    t,
                    match (r.host, t.host) {
                        (Some(a), Some(b)) => shared_domain(registrable(a), registrable(b)),
                        _ => None,
                    },
                    self.strict,
                    self.relay_ip,
                    self.target_ip,
                ),
            },
        }
    }

    /// The relay and target that are configured, or what is wrong with them.
    pub fn odoh_upstream(&self) -> (r: Result<OdohUpstream, String>)
        ensures
            match r {
                Ok(o) => self.odoh() == Ok::<OdohView, Seq<char>>(o@),
                Err(m) => self.odoh() == Err::<OdohView, Seq<char>>(m@),
            },
    {
        let relay = match &self.relay {
            Some(s) => s,
            None => {
                return Err("mode = \"odoh\" requires upstream.relay".to_owned());
            },
        };
        let target = match &self.target {
            Some(s) => s,
            None => {
                return Err("mode = \"odoh\" requires upstream.target".to_owned());
            },
        };
        let relay_url = match parse_url(relay.as_str()) {
            Ok(u) => u,
            Err(e) => {
                let head = concat3("upstream.relay invalid URL '", relay.as_str(), "': ");
                return Err(concat(head.as_str(), e.as_str()));
            },
        };
        let target_url = match parse_url(target.as_str()) {
            Ok(u) => u,
            Err(e) => {
                let head = concat3("upstream.target invalid URL '", target.as_str(), "': ");
                return Err(concat(head.as_str(), e.as_str()));
            },
        };
        let shared: Option<String> = match (&relay_url.host, &target_url.host) {
            (Some(a), Some(b)) => shared_registrable_domain(a.as_str(), b.as_str()),
            _ => None,
        };
        self.odoh_from_urls(relay.as_str(), &relay_url, &target_url, &shared)
    }
}

/// A host and the addresses to reach it at.
pub struct HostAddrs {
    pub host: String,
    pub addrs: Vec<IpAddr>,
}

/// A host and the addresses to reach it at.
pub struct HostView {
    pub host: Seq<char>,
    pub addrs: Seq<IpAddr>,
}

impl View for HostAddrs {
    type V = HostView;

    open spec fn view(&self) -> HostView {
        HostView { host: self.host@, addrs: self.addrs@ }
    }
}

/// What each host is reached at.
pub open spec fn hosts(v: Seq<HostAddrs>) -> Seq<HostView> {
    v.map_values(|h: HostAddrs| h@)
}

impl OdohView {
    /// The addresses that are configured for the two hosts, in the order of the
    /// hosts' names, those of one host together.
    pub open spec fn overrides(&self) -> Seq<HostView> {
        match (self.relay_bootstrap, self.target_bootstrap) {
            (None, None) => Seq::empty(),
            (Some(r), None) => seq![HostView { host: self.relay_host, addrs: seq![r.ip] }],
            (None, Some(t)) => seq![HostView { host: self.target_host, addrs: seq![t.ip] }],
            (Some(r), Some(t)) => {
                let a = HostView { host: self.relay_host, addrs: seq![r.ip] };
                let b = HostView { host: self.target_host, addrs: seq![t.ip] };
                if self.relay_host == self.target_host {
                    seq![HostView { host: self.relay_host, addrs: seq![r.ip, t.ip] }]
                } else if text_less(self.target_host, self.relay_host) {
                    seq![b, a]
                } else {
                    seq![a, b]
                }
            },
        }
    }
}

/// One host with one address.
fn one_host(host: &String, ip: IpAddr) -> (r: HostAddrs)
    ensures
        r@ == (HostView { host: host@, addrs: seq![ip] }),
{
    let mut addrs: Vec<IpAddr> = Vec::new();
    addrs.push(ip);
    assert(addrs@ =~= seq![ip]);
    HostAddrs { host: host.clone(), addrs }
}

impl OdohUpstream {
    /// The addresses that are configured for the two hosts, so that neither
    /// has to be looked up.
    pub fn host_ip_overrides(&self) -> (v: Vec<HostAddrs>)
        ensures
            hosts(v@) == self@.overrides(),
    {
        let mut v: Vec<HostAddrs> = Vec::new();
        match (self.relay_bootstrap, self.target_bootstrap) {
            (None, None) => {},
            (Some(r), None) => {
                v.push(one_host(&self.relay_host, r.ip));
            },
            (None, Some(t)) => {
                v.push(one_host(&self.target_host, t.ip));
            },
            (Some(r), Some(t)) => {
                let mut a = one_host(&self.relay_host, r.ip);
                if str_eq(self.relay_host.as_str(), self.target_host.as_str()) {
                    a.addrs.push(t.ip);
                    assert(a.addrs@ =~= seq![r.ip, t.ip]);
                    v.push(a);
                } else {
                    let b = one_host(&self.target_host, t.ip);
                    if is_less(self.target_host.as_str(), self.relay_host.as_str()) {
                        v.push(b);
                        v.push(a);
                    } else {
                        v.push(a);
                        v.push(b);
                    }
                }
            },
        }
        assert(hosts(v@) =~= self@.overrides());
        v
    }
}

/// A relay and a target that can be used are run by no one operator, as far as
/// their names show: the hosts differ and share no registrable domain.
pub proof fn usable_relay_is_distinct(c: UpstreamConfig)
    requires
        c.odoh() is Ok,
    ensures
        c.odoh()->Ok_0.relay_host != c.odoh()->Ok_0.target_host,
        shared_domain(
            registrable(c.odoh()->Ok_0.relay_host),
            registrable(c.odoh()->Ok_0.target_host),
        ) is None,
{
}

} // verus!
