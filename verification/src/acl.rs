//! Client address lists. Loopback clients are always let in, whatever the
//! list says, so that stub resolvers on the same host keep working.
use vstd::prelude::*;

use crate::net::{ip_text, net_text, parse_ip, parse_net, IpAddr, IpNet};
use crate::text::{concat3, quoted, quoted_text};

verus! {

/// The network that an entry stands for: a network, or one address.
pub open spec fn entry_net(s: Seq<char>) -> Option<IpNet> {
    match net_text(s) {
        Some(n) => Some(n),
        None => match ip_text(s) {
            Some(ip) => Some(IpNet::single(ip)),
            None => None,
        },
    }
}

/// The message about an entry that stands for no network.
pub open spec fn bad_entry(context: Seq<char>, entry: Seq<char>) -> Seq<char> {
    "invalid CIDR or IP in "@ + context + ": "@ + quoted_text(entry)
}

/// Whether each entry stands for the network at its place.
pub open spec fn nets_of(entries: Seq<String>, nets: Seq<IpNet>) -> bool {
    &&& nets.len() == entries.len()
    &&& forall|i: int|
        0 <= i < nets.len() ==> entry_net(entries[i]@) == Some(#[trigger] nets[i]) && nets[i].wf()
}

/// Whether `i` is the first entry that stands for no network.
pub open spec fn first_bad(entries: Seq<String>, i: int) -> bool {
    &&& 0 <= i < entries.len()
    &&& entry_net(entries[i]@) is None
    &&& forall|j: int| 0 <= j < i ==> entry_net((#[trigger] entries[j])@) is Some
}

/// Where an entry stands for no network, no networks belong to the entries.
pub proof fn bad_means_none(entries: Seq<String>, i: int)
    requires
        first_bad(entries, i),
    ensures
        !(exists|nets: Seq<IpNet>| nets_of(entries, nets)),
{
    if exists|nets: Seq<IpNet>| nets_of(entries, nets) {
        let nets = choose|nets: Seq<IpNet>| nets_of(entries, nets);
        assert(entry_net(entries[i]@) == Some(nets[i]));
    }
}

/// The networks that entries stand for, or a message about the first entry
/// that stands for none.
pub fn parse_cidr_list(entries: &Vec<String>, context: &str) -> (r: Result<Vec<IpNet>, String>)
    ensures
        match r {
            Ok(nets) => nets_of(entries@, nets@),
            Err(m) => exists|i: int|
                #[trigger] first_bad(entries@, i) && m@ == bad_entry(context@, entries@[i]@),
        },
{
    let mut nets: Vec<IpNet> = Vec::new();
    let mut i: usize = 0;
    while i < entries.len()
        invariant
            i <= entries.len(),
            nets@.len() == i,
            forall|j: int|
                0 <= j < i ==> entry_net(entries@[j]@) == Some(#[trigger] nets@[j])
                    && nets@[j].wf(),
        decreases entries.len() - i,
    {
        let entry = entries[i].as_str();
        let net = match parse_net(entry) {
            Some(n) => n,
            None => match parse_ip(entry) {
                Some(ip) => IpNet::host(ip),
                None => {
                    proof {
                        assert forall|j: int| 0 <= j < i implies entry_net(
                            (#[trigger] entries@[j])@,
                        ) is Some by {
                            assert(entry_net(entries@[j]@) == Some(nets@[j]));
                        }
                        assert(first_bad(entries@, i as int));
                    }
                    let q = quoted(entry);
                    let mut m = concat3("invalid CIDR or IP in ", context, ": ");
                    m.append(q.as_str());
                    return Err(m);
                },
            },
        };
        nets.push(net);
        i += 1;
    }
    Ok(nets)
}

/// Whether an address is in one of these networks.
pub open spec fn in_any(nets: Seq<IpNet>, ip: IpAddr) -> bool {
    exists|i: int| 0 <= i < nets.len() && (#[trigger] nets[i]).has(ip)
}

/// Whether an address is in one of these networks.
pub fn any_contains(nets: &Vec<IpNet>, ip: IpAddr) -> (b: bool)
    requires
        all_wf(nets@),
    ensures
        b == in_any(nets@, ip),
{
    let mut i: usize = 0;
    while i < nets.len()
        invariant
            i <= nets.len(),
            all_wf(nets@),
            forall|j: int| 0 <= j < i ==> !(#[trigger] nets@[j]).has(ip),
        decreases nets.len() - i,
    {
        if nets[i].contains(ip) {
            return true;
        }
        i += 1;
    }
    false
}

/// Whether each network's prefix is no longer than an address.
pub open spec fn all_wf(nets: Seq<IpNet>) -> bool {
    forall|i: int| 0 <= i < nets.len() ==> (#[trigger] nets[i]).wf()
}

/// The addresses of some networks without those of others. An IPv4-mapped
/// address counts as the IPv4 address.
#[derive(Clone, Debug)]
pub struct CidrMatcher {
    pub include_nets: Vec<IpNet>,
    pub exclude_nets: Vec<IpNet>,
}

impl CidrMatcher {
    /// Whether each network's prefix is no longer than an address.
    pub open spec fn wf(&self) -> bool {
        all_wf(self.include_nets@) && all_wf(self.exclude_nets@)
    }

    /// Whether an address is matched.
    pub open spec fn has(&self, ip: IpAddr) -> bool {
        !in_any(self.exclude_nets@, ip.canonical()) && in_any(self.include_nets@, ip.canonical())
    }

    /// The matcher of these entries, or a message about the first entry that
    /// stands for no network, those to match before those to leave out.
    pub fn from_entries(included: &Vec<String>, excluded: &Vec<String>, context: &str) -> (r:
        Result<Self, String>)
        ensures
            match r {
                Ok(m) => m.wf() && nets_of(included@, m.include_nets@) && nets_of(
                    excluded@,
                    m.exclude_nets@,
                ),
                Err(m) => {
                    ||| exists|i: int|
                        #[trigger] first_bad(included@, i) && m@ == bad_entry(
                            context@,
                            included@[i]@,
                        )
                    ||| (exists|nets: Seq<IpNet>| nets_of(included@, nets)) && exists|i: int|
                        #[trigger] first_bad(excluded@, i) && m@ == bad_entry(
                            context@ + " exclude"@,
                            excluded@[i]@,
                        )
                },
            },
    {
        let include_nets = match parse_cidr_list(included, context) {
            Ok(n) => n,
            Err(m) => {
                return Err(m);
            },
        };
        let other = crate::text::concat(context, " exclude");
        assert(nets_of(included@, include_nets@));
        let exclude_nets = match parse_cidr_list(excluded, other.as_str()) {
            Ok(n) => n,
            Err(m) => {
                return Err(m);
            },
        };
        Ok(CidrMatcher { include_nets, exclude_nets })
    }

    /// Whether an address is matched.
    pub fn matches(&self, ip: IpAddr) -> (b: bool)
        requires
            self.wf(),
        ensures
            b == self.has(ip),
    {
        let ip = ip.to_canonical();
        if any_contains(&self.exclude_nets, ip) {
            return false;
        }
        any_contains(&self.include_nets, ip)
    }

    /// Whether there is no network to match.
    pub fn is_empty(&self) -> (b: bool)
        ensures
            b == (self.include_nets@.len() == 0),
    {
        self.include_nets.len() == 0
    }
}

impl Default for CidrMatcher {
    fn default() -> (r: Self)
        ensures
            r.wf(),
            r.include_nets@.len() == 0,
            r.exclude_nets@.len() == 0,
    {
        CidrMatcher { include_nets: Vec::new(), exclude_nets: Vec::new() }
    }
}

/// The clients that may ask.
#[derive(Clone, Debug)]
pub struct AllowFromAcl {
    pub matcher: CidrMatcher,
}

impl AllowFromAcl {
    /// Whether each network's prefix is no longer than an address.
    pub open spec fn wf(&self) -> bool {
        self.matcher.wf()
    }

    /// Whether the list restricts anything.
    pub open spec fn enabled(&self) -> bool {
        self.matcher.include_nets@.len() > 0
    }

    /// Whether a client may ask: any, where the list is empty; loopback
    /// clients always; else those that the list has.
    pub open spec fn permits(&self, peer: IpAddr) -> bool {
        !self.enabled() || peer.canonical().loopback() || self.matcher.has(peer)
    }

    /// The list of these entries, or a message about the first entry that
    /// stands for no network.
    pub fn from_entries(entries: &Vec<String>) -> (r: Result<Self, String>)
        ensures
            match r {
                Ok(a) => a.wf() && nets_of(entries@, a.matcher.include_nets@)
                    && a.matcher.exclude_nets@.len() == 0,
                Err(m) => exists|i: int|
                    #[trigger] first_bad(entries@, i) && m@ == bad_entry(
                        "allow_from"@,
                        entries@[i]@,
                    ),
            },
    {
        let none: Vec<String> = Vec::new();
        match CidrMatcher::from_entries(entries, &none, "allow_from") {
            Ok(matcher) => Ok(AllowFromAcl { matcher }),
            Err(m) => Err(m),
        }
    }

    /// Whether a client may ask.
    pub fn allows(&self, peer: IpAddr) -> (b: bool)
        requires
            self.wf(),
        ensures
            b == self.permits(peer),
    {
        if self.matcher.is_empty() || peer.to_canonical().is_loopback() {
            return true;
        }
        self.matcher.matches(peer)
    }

    /// Whether to let in a connection. A LOCAL command is a front-end that
    /// asks for itself: it carries no client, and passes.
    pub fn admits(&self, peer: IpAddr, local_command: bool) -> (b: bool)
        requires
            self.wf(),
        ensures
            b == (local_command || self.permits(peer)),
    {
        local_command || self.allows(peer)
    }

    /// Whether the list restricts anything.
    pub fn is_enabled(&self) -> (b: bool)
        ensures
            b == self.enabled(),
    {
        !self.matcher.is_empty()
    }
}

impl Default for AllowFromAcl {
    fn default() -> (r: Self)
        ensures
            r.wf(),
            !r.enabled(),
    {
        AllowFromAcl { matcher: CidrMatcher::default() }
    }
}

/// An address that is to be left out is left out, whatever else includes it.
pub proof fn exclusion_wins(m: CidrMatcher, ip: IpAddr)
    requires
        in_any(m.exclude_nets@, ip.canonical()),
    ensures
        !m.has(ip),
{
}

/// An IPv4-mapped client is treated as the IPv4 client that it is.
pub proof fn mapped_client_is_v4(a: AllowFromAcl, m: crate::net::Ipv6Addr, v: crate::net::Ipv4Addr)
    requires
        m.mapped() == Some(v),
    ensures
        a.permits(IpAddr::V6(m)) == a.permits(IpAddr::V4(v)),
        a.matcher.has(IpAddr::V6(m)) == a.matcher.has(IpAddr::V4(v)),
{
}

/// Where no networks are listed, every client may ask.
pub proof fn empty_list_permits_all(a: AllowFromAcl, peer: IpAddr)
    requires
        a.matcher.include_nets@.len() == 0,
    ensures
        a.permits(peer),
{
}

/// A loopback client may always ask, and so may one that is mapped to loopback.
pub proof fn loopback_is_permitted(a: AllowFromAcl, peer: IpAddr)
    requires
        peer.loopback() || peer.canonical().loopback(),
    ensures
        a.permits(peer),
{
}

} // verus!
