//! Policies for single clients: domains to block or allow for some addresses,
//! and whether to hide IPv6 addresses from them. Loopback clients pass.
use vstd::prelude::*;

use crate::acl::{bad_entry, first_bad, nets_of, CidrMatcher};
use crate::blocklist::{listed_domains, parse_blocklist, BlocklistStore};
use crate::domain_list::{no_domains, PersistedDomainList};
use crate::name_set::NameSet;
use crate::net::{IpAddr, IpNet};
use crate::text::{concat3, decimal, decimal_string, join, joined, text_lines, texts};

verus! {

/// A policy as it is configured.
#[derive(Clone, Debug)]
pub struct ClientPolicyConfig {
    pub from: Vec<String>,
    pub exclude: Vec<String>,
    pub block: Vec<String>,
    pub allow: Vec<String>,
    pub filter_aaaa: Option<bool>,
}

impl Default for ClientPolicyConfig {
    fn default() -> (r: Self)
        ensures
            r.from@.len() == 0,
            r.exclude@.len() == 0,
            r.block@.len() == 0,
            r.allow@.len() == 0,
            r.filter_aaaa is None,
    {
        ClientPolicyConfig {
            from: Vec::new(),
            exclude: Vec::new(),
            block: Vec::new(),
            allow: Vec::new(),
            filter_aaaa: None,
        }
    }
}

/// What a policy says of a name.
#[derive(Debug, Clone, Copy, PartialEq, Eq, Structural)]
pub enum Decision {
    Block,
    Allow,
    Passthrough,
}

/// The domains that a configured list names.
pub open spec fn list_names(list: Seq<String>) -> Set<Seq<char>> {
    listed_domains(text_lines(joined(texts(list), "\n"@)))
}

/// A policy.
#[derive(Debug)]
pub struct ClientPolicy {
    pub nets: CidrMatcher,
    pub store: BlocklistStore,
    pub filter_aaaa: Option<bool>,
}

impl ClientPolicyConfig {
    /// Whether the policy names a domain or says something of IPv6.
    pub open spec fn says_something(&self) -> bool {
        list_names(self.block@) != Set::<Seq<char>>::empty() || list_names(self.allow@)
            != Set::<Seq<char>>::empty() || self.filter_aaaa is Some
    }

    /// Whether the policy can be used.
    pub open spec fn valid(&self) -> bool {
        &&& self.from@.len() > 0
        &&& self.says_something()
        &&& exists|nets: Seq<IpNet>| nets_of(self.from@, nets)
        &&& exists|nets: Seq<IpNet>| nets_of(self.exclude@, nets)
    }

    /// Whether a policy is what was configured.
    pub open spec fn gives(&self, p: ClientPolicy) -> bool {
        &&& p.nets.wf()
        &&& nets_of(self.from@, p.nets.include_nets@)
        &&& nets_of(self.exclude@, p.nets.exclude_nets@)
        &&& p.store.enabled
        &&& p.store.domains@ == list_names(self.block@)
        &&& p.store.exceptions@.user == Set::<Seq<char>>::empty()
        &&& p.store.exceptions@.config == normalized_set(list_names(self.allow@))
        &&& p.store.extra@ == no_domains()
        &&& p.filter_aaaa == self.filter_aaaa
    }

    /// Whether `m` is the message about the configured policy at place `idx`,
    /// which cannot be used.
    pub open spec fn complains(&self, idx: int, m: Seq<char>) -> bool {
        if self.from@.len() == 0 {
            m == place(idx) + ".from: must list at least one CIDR or IP"@
        } else if !self.says_something() {
            m == place(idx) + NOTHING_SAID@
        } else {
            ||| exists|i: int|
                #[trigger] first_bad(self.from@, i) && m == bad_entry(
                    place(idx) + ".from"@,
                    self.from@[i]@,
                )
            ||| (exists|nets: Seq<IpNet>| nets_of(self.from@, nets)) && exists|i: int|
                #[trigger] first_bad(self.exclude@, i) && m == bad_entry(
                    place(idx) + ".from"@ + " exclude"@,
                    self.exclude@[i]@,
                )
        }
    }
}

/// The end of the message about a policy without domains.
pub const NOTHING_SAID: &'static str = ": must specify at least one valid domain in `block`/`allow`, or set `filter_aaaa`";

/// The name of the policy at place `idx` in messages.
pub open spec fn place(idx: int) -> Seq<char> {
    "client_policy["@ + decimal(idx as nat) + "]"@
}

/// Domains, each normalized once more.
pub open spec fn normalized_set(set: Set<Seq<char>>) -> Set<Seq<char>> {
    set.map(|d: Seq<char>| crate::domain_list::normalized(d))
}

/// The list with these entries of the configuration.
fn list_with(set: &NameSet) -> (r: PersistedDomainList)
    ensures
        r@.user == Set::<Seq<char>>::empty(),
        r@.config == normalized_set(set@),
{
    let v = set.sorted();
    let mut list = PersistedDomainList::unpersisted();
    let ghost all = texts(v@);
    let ghost f = |d: Seq<char>| crate::domain_list::normalized(d);
    let mut i: usize = 0;
    assert(all.subrange(0, 0).to_set().map(f) =~= Set::<Seq<char>>::empty());
    while i < v.len()
        invariant
            i <= v.len(),
            all == texts(v@),
            f == (|d: Seq<char>| crate::domain_list::normalized(d)),
            list@.user == Set::<Seq<char>>::empty(),
            list@.config == all.subrange(0, i as int).to_set().map(f),
        decreases v.len() - i,
    {
        list.insert_from_config(v[i].as_str());
        proof {
            let some = all.subrange(0, i as int);
            let more = all.subrange(0, i + 1);
            let t = all[i as int];
            crate::name_set::subrange_grows(all, i as int);
            let a = some.to_set().map(f);
            let b = more.to_set().map(f);
            assert forall|x: Seq<char>| b.contains(x) <==> a.insert(f(t)).contains(x) by {
                if b.contains(x) {
                    let y = choose|y: Seq<char>| more.to_set().contains(y) && x == f(y);
                    if y != t {
                        assert(some.to_set().contains(y));
                    }
                }
                if a.contains(x) {
                    let y = choose|y: Seq<char>| some.to_set().contains(y) && x == f(y);
                    assert(more.to_set().contains(y));
                }
                if x == f(t) {
                    assert(more.to_set().contains(t));
                }
            }
            assert(b =~= a.insert(f(t)));
        }
        i += 1;
    }
    assert(all.subrange(0, all.len() as int) =~= all);
    list
}

impl ClientPolicy {
    /// Whether the policy is for a client, which is no loopback client.
    pub open spec fn applies(&self, peer: IpAddr) -> bool {
        !peer.canonical().loopback() && self.nets.has(peer)
    }

    /// The policy that is configured at place `idx`, or the message about it.
    fn from_config(cfg: &ClientPolicyConfig, idx: usize) -> (r: Result<Self, String>)
        ensures
            match r {
                Ok(p) => cfg.valid() && cfg.gives(p),
                Err(m) => !cfg.valid() && cfg.complains(idx as int, m@),
            },
    {
        let number = decimal_string(idx as u64);
        let ctx = concat3("client_policy[", number.as_str(), "]");
        if cfg.from.len() == 0 {
            return Err(
                crate::text::concat(ctx.as_str(), ".from: must list at least one CIDR or IP"),
            );
        }
        let blocks = parse_blocklist(join(&cfg.block, "\n").as_str());
        let allows = parse_blocklist(join(&cfg.allow, "\n").as_str());
        if blocks.is_empty() && allows.is_empty() && cfg.filter_aaaa.is_none() {
            return Err(crate::text::concat(ctx.as_str(), NOTHING_SAID));
        }
        let from_ctx = crate::text::concat(ctx.as_str(), ".from");
        let nets = match CidrMatcher::from_entries(&cfg.from, &cfg.exclude, from_ctx.as_str()) {
            Ok(n) => n,
            Err(m) => {
                proof {
                    if exists|i: int| #[trigger] first_bad(cfg.from@, i) {
                        let i = choose|i: int| #[trigger] first_bad(cfg.from@, i);
                        crate::acl::bad_means_none(cfg.from@, i);
                    } else {
                        let i = choose|i: int| #[trigger] first_bad(cfg.exclude@, i);
                        crate::acl::bad_means_none(cfg.exclude@, i);
                    }
                }
                return Err(m);
            },
        };
        let mut store = BlocklistStore::new(list_with(&allows), PersistedDomainList::unpersisted());
        store.swap_domains(blocks);
        Ok(ClientPolicy { nets, store, filter_aaaa: cfg.filter_aaaa })
    }
}

/// The policies in their order.
#[derive(Debug)]
pub struct ClientPolicySet {
    pub rules: Vec<ClientPolicy>,
}

/// What the policies from `i` on say of a name: the first that is for the
/// client and says something of the name decides.
pub open spec fn decision_from(
    rules: Seq<ClientPolicy>,
    i: int,
    peer: IpAddr,
    qname: Seq<char>,
) -> Decision
    decreases rules.len() - i,
{
    if i < 0 || i >= rules.len() {
        Decision::Passthrough
    } else if !rules[i].applies(peer) {
        decision_from(rules, i + 1, peer, qname)
    } else {
        let v = rules[i].store.verdict(qname);
        if v.blocked {
            Decision::Block
        } else if v.rule is Some {
            Decision::Allow
        } else {
            decision_from(rules, i + 1, peer, qname)
        }
    }
}

/// What the policies from `i` on say of IPv6: the first that is for the client
/// and says something.
pub open spec fn filter_from(rules: Seq<ClientPolicy>, i: int, peer: IpAddr) -> Option<bool>
    decreases rules.len() - i,
{
    if i < 0 || i >= rules.len() {
        None
    } else if rules[i].applies(peer) && rules[i].filter_aaaa is Some {
        rules[i].filter_aaaa
    } else {
        filter_from(rules, i + 1, peer)
    }
}

impl ClientPolicySet {
    /// Whether each network's prefix is no longer than an address.
    pub open spec fn wf(&self) -> bool {
        forall|i: int| 0 <= i < self.rules@.len() ==> (#[trigger] self.rules@[i]).nets.wf()
    }

    /// What the policies say of a name.
    pub open spec fn decision(&self, peer: IpAddr, qname: Seq<char>) -> Decision {
        decision_from(self.rules@, 0, peer, qname)
    }

    /// The policies that are configured, or the message about the first that
    /// cannot be used.
    pub fn from_configs(configs: &Vec<ClientPolicyConfig>) -> (r: Result<Self, String>)
        ensures
            match r {
                Ok(set) => {
                    &&& set.wf()
                    &&& set.rules@.len() == configs@.len()
                    &&& forall|i: int|
                        0 <= i < configs@.len() ==> (#[trigger] configs@[i]).valid()
                            && configs@[i].gives(set.rules@[i])
                },
                Err(m) => exists|i: int|
                    {
                        &&& 0 <= i < configs@.len()
                        &&& !(#[trigger] configs@[i]).valid()
                        &&& configs@[i].complains(i, m@)
                        &&& forall|j: int| 0 <= j < i ==> (#[trigger] configs@[j]).valid()
                    },
            },
    {
        let mut rules: Vec<ClientPolicy> = Vec::new();
        let mut i: usize = 0;
        while i < configs.len()
            invariant
                i <= configs.len(),
                rules@.len() == i,
                forall|j: int|
                    0 <= j < i ==> (#[trigger] configs@[j]).valid() && configs@[j].gives(rules@[j]),
            decreases configs.len() - i,
        {
            match ClientPolicy::from_config(&configs[i], i) {
                Ok(p) => {
                    rules.push(p);
                },
                Err(m) => {
                    return Err(m);
                },
            }
            i += 1;
        }
        let set = ClientPolicySet { rules };
        assert forall|i: int| 0 <= i < set.rules@.len() implies (
        #[trigger] set.rules@[i]).nets.wf() by {
            assert(configs@[i].gives(set.rules@[i]));
        }
        Ok(set)
    }

    /// Whether there is a policy.
    pub fn is_enabled(&self) -> (b: bool)
        ensures
            b == (self.rules@.len() > 0),
    {
        self.rules.len() > 0
    }

    /// The number of policies.
    pub fn rule_count(&self) -> (n: usize)
        ensures
            n == self.rules@.len(),
    {
        self.rules.len()
    }

    /// Whether the policy at `i` is for a client.
    fn rule_applies(&self, i: usize, peer: IpAddr) -> (b: bool)
        requires
            self.wf(),
            i < self.rules@.len(),
        ensures
            b == self.rules@[i as int].applies(peer),
    {
        if peer.to_canonical().is_loopback() {
            return false;
        }
        self.rules[i].nets.matches(peer)
    }

    /// What the policies say of a name that a client asks for.
    pub fn evaluate(&self, peer: IpAddr, qname: &str) -> (d: Decision)
        requires
            self.wf(),
        ensures
            d == self.decision(peer, qname@),
    {
        let mut i: usize = 0;
        while i < self.rules.len()
            invariant
                self.wf(),
                i <= self.rules.len(),
                self.decision(peer, qname@) == decision_from(self.rules@, i as int, peer, qname@),
            decreases self.rules.len() - i,
        {
            if self.rule_applies(i, peer) {
                let r = self.rules[i].store.check(qname);
                if r.blocked {
                    return Decision::Block;
                }
                if r.matched_rule.is_some() {
                    return Decision::Allow;
                }
            }
            i += 1;
        }
        Decision::Passthrough
    }

    /// Whether to hide IPv6 addresses from a client: what the policies say, and
    /// `global` where they say nothing.
    pub fn effective_filter_aaaa(&self, peer: IpAddr, global: bool) -> (b: bool)
        requires
            self.wf(),
        ensures
            b == match filter_from(self.rules@, 0, peer) {
                Some(x) => x,
                None => global,
            },
    {
        let mut i: usize = 0;
        while i < self.rules.len()
            invariant
                self.wf(),
                i <= self.rules.len(),
                filter_from(self.rules@, 0, peer) == filter_from(self.rules@, i as int, peer),
            decreases self.rules.len() - i,
        {
            if self.rule_applies(i, peer) {
                match self.rules[i].filter_aaaa {
                    Some(x) => {
                        return x;
                    },
                    None => {},
                }
            }
            i += 1;
        }
        global
    }
}

impl Default for ClientPolicySet {
    fn default() -> (r: Self)
        ensures
            r.wf(),
            r.rules@.len() == 0,
    {
        ClientPolicySet { rules: Vec::new() }
    }
}

/// No policy says anything of a loopback client, nor of one that is mapped to loopback.
pub proof fn loopback_passes(rules: Seq<ClientPolicy>, i: int, peer: IpAddr, qname: Seq<char>)
    requires
        peer.canonical().loopback(),
    ensures
        decision_from(rules, i, peer, qname) == Decision::Passthrough,
        filter_from(rules, i, peer) is None,
    decreases rules.len() - i,
{
    if 0 <= i < rules.len() {
        loopback_passes(rules, i + 1, peer, qname);
    }
}

/// An IPv4-mapped client is treated as the IPv4 client that it is.
pub proof fn mapped_client_decides_as_v4(
    rules: Seq<ClientPolicy>,
    i: int,
    peer: IpAddr,
    qname: Seq<char>,
)
    ensures
        decision_from(rules, i, peer, qname) == decision_from(rules, i, peer.canonical(), qname),
        filter_from(rules, i, peer) == filter_from(rules, i, peer.canonical()),
    decreases rules.len() - i,
{
    if 0 <= i < rules.len() {
        mapped_client_decides_as_v4(rules, i + 1, peer, qname);
    }
}

/// Within a policy an exception wins: a name that a policy for the client
/// makes an exception of is allowed, unless an earlier policy decided.
pub proof fn exception_wins(rules: Seq<ClientPolicy>, peer: IpAddr, qname: Seq<char>)
    requires
        rules.len() > 0,
        rules[0].applies(peer),
        rules[0].store.enabled,
        rules[0].store.exceptions@.found(crate::domain_list::normalized(qname)) is Some,
    ensures
        decision_from(rules, 0, peer, qname) == Decision::Allow,
{
}

} // verus!
