//! Services behind the proxy: where requests for each go.
use vstd::prelude::*;

use crate::name_set::{
    is_less, text_less, text_less_irreflexive, text_less_total, text_less_trans, NameSet,
};
use crate::text::{
    ascii_lowercase, chars_of, concat, eq_ignore_ascii_case, has_prefix, lowercase, starts_with, str_eq, string_range, texts, to_lowercase,
};

verus! {

/// A part of a service that has a port of its own.
#[derive(Clone, Debug)]
pub struct RouteEntry {
    pub path: String,
    pub port: u16,
    pub strip: bool,
}

/// A service.
#[derive(Clone, Debug)]
pub struct ServiceEntry {
    pub name: String,
    pub target_port: u16,
    pub target_host: Option<String>,
    pub routes: Vec<RouteEntry>,
}

/// A part of a service that has a port of its own.
pub struct RouteView {
    pub path: Seq<char>,
    pub port: u16,
    pub strip: bool,
}

/// A service.
pub struct ServiceView {
    pub name: Seq<char>,
    pub target_port: u16,
    pub target_host: Option<Seq<char>>,
    pub routes: Seq<RouteView>,
}

impl View for RouteEntry {
    type V = RouteView;

    open spec fn view(&self) -> RouteView {
        RouteView { path: self.path@, port: self.port, strip: self.strip }
    }
}

/// What each route is.
pub open spec fn routes(v: Seq<RouteEntry>) -> Seq<RouteView> {
    v.map_values(|r: RouteEntry| r@)
}

/// The text in an option.
pub open spec fn text_in(s: Option<String>) -> Option<Seq<char>> {
    match s {
        Some(s) => Some(s@),
        None => None,
    }
}

impl View for ServiceEntry {
    type V = ServiceView;

    open spec fn view(&self) -> ServiceView {
        ServiceView {
            name: self.name@,
            target_port: self.target_port,
            target_host: text_in(self.target_host),
            routes: routes(self.routes@),
        }
    }
}

/// Whether a route is for a request: its path is the path of the request, or
/// begins it and ends where a segment of it ends.
pub open spec fn route_covers(route: Seq<char>, request: Seq<char>) -> bool {
    ||| request == route
    ||| has_prefix(request, route) && {
        ||| route.len() > 0 && route.last() == '/'
        ||| request.len() > route.len() && request[route.len() as int] == '/'
    }
}

/// Whether route `i` is the one for a request: none that is for it has a longer
/// path, and none after it an equally long one.
pub open spec fn best_route(rs: Seq<RouteView>, request: Seq<char>, i: int) -> bool {
    &&& 0 <= i < rs.len()
    &&& route_covers(rs[i].path, request)
    &&& forall|j: int|
        0 <= j < rs.len() && route_covers((#[trigger] rs[j]).path, request) ==> rs[j].path.len()
            <= rs[i].path.len() && (j > i ==> rs[j].path.len() < rs[i].path.len())
}

/// The path that a route hands on: the path of the request, without the path of
/// the route where that is to be stripped, and always with a slash before it.
pub open spec fn handed_on(route: RouteView, request: Seq<char>) -> Seq<char> {
    if route.strip {
        let rest = request.subrange(route.path.len() as int, request.len() as int);
        if rest.len() == 0 || rest[0] != '/' {
            "/"@ + rest
        } else {
            rest
        }
    } else {
        request
    }
}

impl RouteEntry {
    /// The same route again.
    pub fn copy(&self) -> (r: RouteEntry)
        ensures
            r@ == self@,
    {
        RouteEntry { path: self.path.clone(), port: self.port, strip: self.strip }
    }

    /// Whether the route is for a request.
    fn covers(&self, request: &str) -> (b: bool)
        ensures
            b == route_covers(self.path@, request@),
    {
        if str_eq(request, self.path.as_str()) {
            return true;
        }
        if !starts_with(request, self.path.as_str()) {
            return false;
        }
        let r = chars_of(self.path.as_str());
        let q = chars_of(request);
        (r.len() > 0 && r[r.len() - 1] == '/') || (q.len() > r.len() && q[r.len()] == '/')
    }
}

/// A route that is for a request begins its path.
proof fn covering_route_is_prefix(route: Seq<char>, request: Seq<char>)
    requires
        route_covers(route, request),
    ensures
        has_prefix(request, route),
        route.len() <= request.len(),
{
    assert(request.subrange(0, request.len() as int) =~= request);
}

impl ServiceEntry {
    /// The port for a request, and the path to hand on.
    pub fn resolve_route(&self, request_path: &str) -> (r: (u16, String))
        ensures
            forall|i: int|
                #[trigger] best_route(self@.routes, request_path@, i) ==> r.0
                    == self@.routes[i].port && r.1@ == handed_on(
                    self@.routes[i],
                    request_path@,
                ),
            (exists|i: int| best_route(self@.routes, request_path@, i)) || (r.0 == self.target_port
                && r.1@ == request_path@),
            (exists|i: int|
                0 <= i < self@.routes.len() && route_covers(
                    (#[trigger] self@.routes[i]).path,
                    request_path@,
                )) <==> (exists|i: int| best_route(self@.routes, request_path@, i)),
    {
        let ghost rs = self@.routes;
        let ghost q = request_path@;
        let mut best: Option<usize> = None;
        let mut best_len: usize = 0;
        let mut k: usize = 0;
        while k < self.routes.len()
            invariant
                k <= self.routes.len(),
                rs == self@.routes,
                rs.len() == self.routes@.len(),
                q == request_path@,
                match best {
                    None => forall|j: int|
                        0 <= j < k ==> !route_covers((#[trigger] rs[j]).path, q),
                    Some(b) => {
                        &&& b < k
                        &&& route_covers(rs[b as int].path, q)
                        &&& best_len == rs[b as int].path.len()
                        &&& forall|j: int|
                            0 <= j < k && route_covers((#[trigger] rs[j]).path, q)
                                ==> rs[j].path.len() <= best_len && (j > b ==> rs[j].path.len()
                                < best_len)
                    },
                },
            decreases self.routes.len() - k,
        {
            assert(rs[k as int] == self.routes@[k as int]@);
            if self.routes[k].covers(request_path) {
                let len: usize = chars_of(self.routes[k].path.as_str()).len();
                if best.is_none() || len >= best_len {
                    best = Some(k);
                    best_len = len;
                }
            }
            k += 1;
        }
        match best {
            None => (self.target_port, request_path.to_owned()),
            Some(b) => {
                proof {
                    assert(best_route(rs, q, b as int));
                    assert forall|i: int| best_route(rs, q, i) implies i == b by {
                        assert(route_covers(rs[i].path, q));
                        assert(route_covers(rs[b as int].path, q));
                    }
                    assert(rs[b as int] == self.routes@[b as int]@);
                    covering_route_is_prefix(rs[b as int].path, q);
                }
                let route = &self.routes[b];
                if !route.strip {
                    return (route.port, request_path.to_owned());
                }
                let x = chars_of(request_path);
                let rest = string_range(x.as_slice(), best_len, x.len());
                if best_len == x.len() || x[best_len] != '/' {
                    (route.port, concat("/", rest.as_str()))
                } else {
                    (route.port, rest)
                }
            },
        }
    }

    /// The same service again.
    pub fn copy(&self) -> (r: ServiceEntry)
        ensures
            r@ == self@,
    {
        let target_host: Option<String> = match &self.target_host {
            Some(h) => Some(h.clone()),
            None => None,
        };
        ServiceEntry {
            name: self.name.clone(),
            target_port: self.target_port,
            target_host,
            routes: copy_routes(&self.routes),
        }
    }
}

/// The same routes again.
pub fn copy_routes(v: &Vec<RouteEntry>) -> (r: Vec<RouteEntry>)
    ensures
        routes(r@) == routes(v@),
{
    let mut r: Vec<RouteEntry> = Vec::new();
    let mut i: usize = 0;
    while i < v.len()
        invariant
            i <= v.len(),
            r@.len() == i,
            forall|j: int| 0 <= j < i ==> (#[trigger] r@[j])@ == v@[j]@,
        decreases v.len() - i,
    {
        r.push(v[i].copy());
        i += 1;
    }
    assert(routes(r@) =~= routes(v@));
    r
}

/// Routes without those that have a path.
pub open spec fn without_path(rs: Seq<RouteView>, path: Seq<char>) -> Seq<RouteView> {
    rs.filter(|r: RouteView| r.path != path)
}

/// Routes without those that have a path.
fn drop_path(v: &Vec<RouteEntry>, path: &str) -> (r: Vec<RouteEntry>)
    ensures
        routes(r@) == without_path(routes(v@), path@),
        r@.len() <= v@.len(),
{
    let ghost all = routes(v@);
    let ghost p = |r: RouteView| r.path != path@;
    let mut r: Vec<RouteEntry> = Vec::new();
    let mut i: usize = 0;
    proof {
        reveal(Seq::filter);
        assert(all.subrange(0, 0) =~= Seq::<RouteView>::empty());
        assert(routes(r@) =~= Seq::<RouteView>::empty());
    }
    while i < v.len()
        invariant
            i <= v.len(),
            all == routes(v@),
            p == (|r: RouteView| r.path != path@),
            r@.len() <= i,
            routes(r@) == all.subrange(0, i as int).filter(p),
        decreases v.len() - i,
    {
        proof {
            reveal(Seq::filter);
            let more = all.subrange(0, i + 1);
            assert(more.drop_last() =~= all.subrange(0, i as int));
            assert(more.last() == v@[i as int]@);
        }
        let ghost before = r@;
        if !str_eq(v[i].path.as_str(), path) {
            let one = v[i].copy();
            r.push(one);
            assert(routes(r@) =~= routes(before).push(one@));
        }
        i += 1;
    }
    assert(all.subrange(0, all.len() as int) =~= all);
    r
}

/// A service under the name that it is looked up by.
pub struct Slot {
    pub key: String,
    pub entry: ServiceEntry,
}

/// Whether some slot has a key.
pub open spec fn keyed(slots: Seq<Slot>, key: Seq<char>) -> bool {
    exists|i: int| 0 <= i < slots.len() && (#[trigger] slots[i]).key@ == key
}

/// Whether no two slots have one key.
pub open spec fn keys_differ(slots: Seq<Slot>) -> bool {
    forall|i: int, j: int|
        0 <= i < j < slots.len() ==> (#[trigger] slots[i]).key@ != (#[trigger] slots[j]).key@
}

/// The services by their keys.
pub open spec fn slot_map(slots: Seq<Slot>) -> Map<Seq<char>, ServiceView> {
    Map::new(
        |k: Seq<char>| keyed(slots, k),
        |k: Seq<char>|
            {
                let i = choose|i: int| 0 <= i < slots.len() && (#[trigger] slots[i]).key@ == k;
                slots[i].entry@
            },
    )
}

proof fn slot_at(slots: Seq<Slot>, i: int)
    requires
        keys_differ(slots),
        0 <= i < slots.len(),
    ensures
        slot_map(slots).contains_key(slots[i].key@),
        slot_map(slots)[slots[i].key@] == slots[i].entry@,
{
    let k = slots[i].key@;
    let c = choose|c: int| 0 <= c < slots.len() && (#[trigger] slots[c]).key@ == k;
    if c < i {
        assert(slots[c].key@ != slots[i].key@);
    } else if i < c {
        assert(slots[i].key@ != slots[c].key@);
    }
}

/// A slot in place of another with its key.
proof fn slot_replaced(slots: Seq<Slot>, i: int, s: Slot)
    requires
        keys_differ(slots),
        0 <= i < slots.len(),
        slots[i].key@ == s.key@,
    ensures
        keys_differ(slots.update(i, s)),
        slot_map(slots.update(i, s)) == slot_map(slots).insert(s.key@, s.entry@),
{
    let after = slots.update(i, s);
    assert forall|a: int, b: int| 0 <= a < b < after.len() implies (#[trigger] after[a]).key@ != (
    #[trigger] after[b]).key@ by {
        assert(slots[a].key@ != slots[b].key@);
        assert(after[a].key@ == slots[a].key@);
        assert(after[b].key@ == slots[b].key@);
    }
    let m = slot_map(after);
    let n = slot_map(slots).insert(s.key@, s.entry@);
    assert forall|k: Seq<char>| m.contains_key(k) <==> n.contains_key(k) by {
        if keyed(after, k) {
            let j = choose|j: int| 0 <= j < after.len() && (#[trigger] after[j]).key@ == k;
            assert(slots[j].key@ == k);
        }
        if keyed(slots, k) {
            let j = choose|j: int| 0 <= j < slots.len() && (#[trigger] slots[j]).key@ == k;
            assert(after[j].key@ == k);
        }
        if k == s.key@ {
            assert(after[i].key@ == k);
        }
    }
    assert forall|k: Seq<char>| m.contains_key(k) implies m[k] == n[k] by {
        let j = choose|j: int| 0 <= j < after.len() && (#[trigger] after[j]).key@ == k;
        slot_at(after, j);
        if j != i {
            assert(slots[j].key@ == k);
            slot_at(slots, j);
            if j < i {
                assert(slots[j].key@ != slots[i].key@);
            } else {
                assert(slots[i].key@ != slots[j].key@);
            }
        }
    }
    assert(m =~= n);
}

/// A slot with a new key at the end.
proof fn slot_added(slots: Seq<Slot>, s: Slot)
    requires
        keys_differ(slots),
        !keyed(slots, s.key@),
    ensures
        keys_differ(slots.push(s)),
        slot_map(slots.push(s)) == slot_map(slots).insert(s.key@, s.entry@),
{
    let after = slots.push(s);
    assert forall|a: int, b: int| 0 <= a < b < after.len() implies (#[trigger] after[a]).key@ != (
    #[trigger] after[b]).key@ by {
        assert(after[a] == slots[a]);
        if b < slots.len() {
            assert(after[b] == slots[b]);
        }
    }
    let m = slot_map(after);
    let n = slot_map(slots).insert(s.key@, s.entry@);
    assert forall|k: Seq<char>| m.contains_key(k) <==> n.contains_key(k) by {
        if keyed(after, k) {
            let j = choose|j: int| 0 <= j < after.len() && (#[trigger] after[j]).key@ == k;
            if j < slots.len() {
                assert(slots[j].key@ == k);
            }
        }
        if keyed(slots, k) {
            let j = choose|j: int| 0 <= j < slots.len() && (#[trigger] slots[j]).key@ == k;
            assert(after[j].key@ == k);
        }
        if k == s.key@ {
            assert(after[slots.len() as int].key@ == k);
        }
    }
    assert forall|k: Seq<char>| m.contains_key(k) implies m[k] == n[k] by {
        let j = choose|j: int| 0 <= j < after.len() && (#[trigger] after[j]).key@ == k;
        slot_at(after, j);
        if j < slots.len() {
            assert(slots[j].key@ == k);
            slot_at(slots, j);
        }
    }
    assert(m =~= n);
}

/// A slot taken out.
proof fn slot_removed(slots: Seq<Slot>, i: int)
    requires
        keys_differ(slots),
        0 <= i < slots.len(),
    ensures
        keys_differ(slots.remove(i)),
        slot_map(slots.remove(i)) == slot_map(slots).remove(slots[i].key@),
{
    let after = slots.remove(i);
    assert forall|a: int, b: int| 0 <= a < b < after.len() implies (#[trigger] after[a]).key@ != (
    #[trigger] after[b]).key@ by {
        let pa = if a < i {
            a
        } else {
            a + 1
        };
        let pb = if b < i {
            b
        } else {
            b + 1
        };
        assert(slots[pa].key@ != slots[pb].key@);
    }
    let m = slot_map(after);
    let n = slot_map(slots).remove(slots[i].key@);
    assert forall|k: Seq<char>| m.contains_key(k) <==> n.contains_key(k) by {
        if keyed(after, k) {
            let j = choose|j: int| 0 <= j < after.len() && (#[trigger] after[j]).key@ == k;
            let p = if j < i {
                j
            } else {
                j + 1
            };
            assert(slots[p].key@ == k);
            if p < i {
                assert(slots[p].key@ != slots[i].key@);
            } else {
                assert(slots[i].key@ != slots[p].key@);
            }
        }
        if keyed(slots, k) && k != slots[i].key@ {
            let j = choose|j: int| 0 <= j < slots.len() && (#[trigger] slots[j]).key@ == k;
            let p = if j < i {
                j
            } else {
                j - 1
            };
            assert(after[p].key@ == k);
        }
    }
    assert forall|k: Seq<char>| m.contains_key(k) implies m[k] == n[k] by {
        let j = choose|j: int| 0 <= j < after.len() && (#[trigger] after[j]).key@ == k;
        slot_at(after, j);
        let p = if j < i {
            j
        } else {
            j + 1
        };
        assert(slots[p].key@ == k);
        slot_at(slots, p);
    }
    assert(m =~= n);
}

/// The services and which of them the configuration file owns.
pub struct ServiceStore {
    pub slots: Vec<Slot>,
    pub config_services: NameSet,
}

/// The services by their names in lower case, and the names that the
/// configuration file owns.
pub struct StoreView {
    pub services: Map<Seq<char>, ServiceView>,
    pub config: Set<Seq<char>>,
}

impl View for ServiceStore {
    type V = StoreView;

    open spec fn view(&self) -> StoreView {
        StoreView { services: slot_map(self.slots@), config: self.config_services@ }
    }
}

impl StoreView {
    /// Whether each service is kept under its name, or under its name in lower
    /// case.
    pub open spec fn named(&self) -> bool {
        forall|k: Seq<char>| #[trigger]
            self.services.contains_key(k) ==> self.services[k].name == k || lowercase(
                self.services[k].name,
            ) == k
    }

    /// Whether each name that a service is kept under is its own form in lower
    /// case.
    pub open spec fn folded(&self) -> bool {
        forall|k: Seq<char>| #[trigger] self.services.contains_key(k) ==> lowercase(k) == k
    }

    /// The service that a name looks up.
    pub open spec fn looked_up(&self, name: Seq<char>) -> Option<ServiceView> {
        if self.services.contains_key(lowercase(name)) {
            Some(self.services[lowercase(name)])
        } else {
            None
        }
    }

    /// The services with one more, which was kept from before: unless the
    /// configuration file owns its name.
    pub open spec fn with_persisted(&self, e: ServiceView) -> StoreView {
        let key = lowercase(e.name);
        if self.config.contains(key) {
            *self
        } else {
            StoreView { services: self.services.insert(key, e), config: self.config }
        }
    }

    /// The services with those that were kept from before.
    pub open spec fn with_all_persisted(&self, es: Seq<ServiceView>) -> StoreView
        decreases es.len(),
    {
        if es.len() == 0 {
            *self
        } else {
            self.with_all_persisted(es.drop_last()).with_persisted(es.last())
        }
    }
}

/// What each service is.
pub open spec fn services(v: Seq<ServiceEntry>) -> Seq<ServiceView> {
    v.map_values(|e: ServiceEntry| e@)
}

impl ServiceStore {
    /// Whether no two services have one key, and each key is the name of its
    /// service, or the name in lower case.
    pub open spec fn wf(&self) -> bool {
        keys_differ(self.slots@) && self@.named()
    }

    /// A store without services.
    pub fn new() -> (r: Self)
        ensures
            r.wf(),
            r@ == (StoreView { services: Map::empty(), config: Set::empty() }),
    {
        let r = ServiceStore { slots: Vec::new(), config_services: NameSet::new() };
        assert(slot_map(r.slots@) =~= Map::<Seq<char>, ServiceView>::empty());
        r
    }

    /// Where a key is.
    fn find(&self, key: &str) -> (r: Option<usize>)
        ensures
            match r {
                Some(i) => i < self.slots@.len() && self.slots@[i as int].key@ == key@,
                None => !keyed(self.slots@, key@),
            },
    {
        let mut i: usize = 0;
        while i < self.slots.len()
            invariant
                i <= self.slots.len(),
                forall|j: int| 0 <= j < i ==> (#[trigger] self.slots@[j]).key@ != key@,
            decreases self.slots.len() - i,
        {
            if str_eq(self.slots[i].key.as_str(), key) {
                return Some(i);
            }
            i += 1;
        }
        None
    }

    /// Puts a service under a key.
    fn put(&mut self, key: String, entry: ServiceEntry)
        requires
            old(self).wf(),
            entry@.name == key@ || lowercase(entry@.name) == key@,
        ensures
            final(self).wf(),
            final(self)@ == (StoreView {
                services: old(self)@.services.insert(key@, entry@),
                config: old(self)@.config,
            }),
    {
        let at = self.find(key.as_str());
        let slot = Slot { key, entry };
        match at {
            Some(i) => {
                proof {
                    slot_replaced(self.slots@, i as int, slot);
                }
                self.slots[i] = slot;
            },
            None => {
                proof {
                    slot_added(self.slots@, slot);
                }
                self.slots.push(slot);
            },
        }
    }

    /// Puts a service of the configuration file.
    pub fn insert_from_config(
        &mut self,
        name: &str,
        target_port: u16,
        target_host: Option<String>,
        route_list: Vec<RouteEntry>,
    )
        requires
            old(self).wf(),
        ensures
            final(self).wf(),
            final(self)@ == (StoreView {
                services: old(self)@.services.insert(
                    lowercase(name@),
                    ServiceView {
                        name: lowercase(name@),
                        target_port,
                        target_host: text_in(target_host),
                        routes: routes(route_list@),
                    },
                ),
                config: old(self)@.config.insert(lowercase(name@)),
            }),
    {
        let key = to_lowercase(name);
        let _new = self.config_services.insert(key.clone());
        let entry = ServiceEntry { name: key.clone(), target_port, target_host, routes: route_list };
        self.put(key, entry);
    }

    /// Puts a service that is kept across restarts, without routes.
    pub fn insert(&mut self, name: &str, target_port: u16, target_host: Option<String>)
        requires
            old(self).wf(),
        ensures
            final(self).wf(),
            final(self)@ == (StoreView {
                services: old(self)@.services.insert(
                    lowercase(name@),
                    ServiceView {
                        name: lowercase(name@),
                        target_port,
                        target_host: text_in(target_host),
                        routes: Seq::empty(),
                    },
                ),
                config: old(self)@.config,
            }),
    {
        let key = to_lowercase(name);
        let none: Vec<RouteEntry> = Vec::new();
        assert(routes(none@) =~= Seq::<RouteView>::empty());
        let entry = ServiceEntry { name: key.clone(), target_port, target_host, routes: none };
        self.put(key, entry);
    }

    /// Adds a route to a service, in place of those with its path, and says
    /// whether there is such a service.
    pub fn add_route(&mut self, service: &str, path: String, port: u16, strip: bool) -> (b: bool)
        requires
            old(self).wf(),
        ensures
            final(self).wf(),
            b == old(self)@.services.contains_key(lowercase(service@)),
            !b ==> final(self)@ == old(self)@,
            b ==> final(self)@ == ({
                let key = lowercase(service@);
                let e = old(self)@.services[key];
                StoreView {
                    services: old(self)@.services.insert(
                        key,
                        ServiceView {
                            routes: without_path(e.routes, path@).push(
                                RouteView { path: path@, port, strip },
                            ),
                            ..e
                        },
                    ),
                    config: old(self)@.config,
                }
            }),
    {
        let key = to_lowercase(service);
        match self.find(key.as_str()) {
            None => false,
            Some(i) => {
                proof {
                    slot_at(self.slots@, i as int);
                }
                let mut entry = self.slots[i].entry.copy();
                let mut list = drop_path(&entry.routes, path.as_str());
                let ghost before = list@;
                list.push(RouteEntry { path, port, strip });
                assert(routes(list@) =~= routes(before).push(list@.last()@));
                entry.routes = list;
                self.put(key, entry);
                true
            },
        }
    }

    /// Takes the routes with a path from a service, and says whether there were any.
    pub fn remove_route(&mut self, service: &str, path: &str) -> (b: bool)
        requires
            old(self).wf(),
        ensures
            final(self).wf(),
            ({
                let key = lowercase(service@);
                let e = old(self)@.services[key];
                let left = without_path(e.routes, path@);
                &&& b == (old(self)@.services.contains_key(key) && left.len() < e.routes.len())
                &&& !b ==> final(self)@ == old(self)@
                &&& b ==> final(self)@ == (StoreView {
                    services: old(self)@.services.insert(key, ServiceView { routes: left, ..e }),
                    config: old(self)@.config,
                })
            }),
    {
        let key = to_lowercase(service);
        match self.find(key.as_str()) {
            None => false,
            Some(i) => {
                proof {
                    slot_at(self.slots@, i as int);
                }
                let mut entry = self.slots[i].entry.copy();
                let list = drop_path(&entry.routes, path);
                assert(routes(list@).len() == list@.len());
                assert(routes(entry.routes@).len() == entry.routes@.len());
                if list.len() < entry.routes.len() {
                    entry.routes = list;
                    self.put(key, entry);
                    true
                } else {
                    false
                }
            },
        }
    }

    /// The service with a name, in any case of letters.
    pub fn lookup(&self, name: &str) -> (r: Option<&ServiceEntry>)
        requires
            self.wf(),
        ensures
            match r {
                Some(e) => self@.services.contains_key(lowercase(name@))
                    && self@.services[lowercase(name@)] == e@,
                None => !self@.services.contains_key(lowercase(name@)),
            },
    {
        let key = to_lowercase(name);
        match self.find(key.as_str()) {
            None => None,
            Some(i) => {
                proof {
                    slot_at(self.slots@, i as int);
                }
                Some(&self.slots[i].entry)
            },
        }
    }

    /// Takes a service out, and says whether it was there.
    pub fn remove(&mut self, name: &str) -> (b: bool)
        requires
            old(self).wf(),
        ensures
            final(self).wf(),
            b == old(self)@.services.contains_key(lowercase(name@)),
            final(self)@ == (StoreView {
                services: old(self)@.services.remove(lowercase(name@)),
                config: old(self)@.config,
            }),
    {
        let key = to_lowercase(name);
        match self.find(key.as_str()) {
            None => {
                assert(self@.services.remove(key@) =~= self@.services);
                false
            },
            Some(i) => {
                proof {
                    slot_at(self.slots@, i as int);
                    slot_removed(self.slots@, i as int);
                }
                let _gone = self.slots.remove(i);
                true
            },
        }
    }

    /// Whether the configuration file owns a name, which is given in lower case.
    pub fn is_config_service(&self, name: &str) -> (b: bool)
        ensures
            b == self@.config.contains(name@),
    {
        self.config_services.contains(name)
    }

    /// The services in the order of their names, each once.
    pub fn list(&self) -> (v: Vec<&ServiceEntry>)
        requires
            self.wf(),
        ensures
            is_listing(service_row(v@), self@),
    {
        let mut v: Vec<&ServiceEntry> = Vec::new();
        let mut i: usize = 0;
        let ghost mut places: Seq<int> = Seq::empty();
        while i < self.slots.len()
            invariant
                i <= self.slots.len(),
                in_name_order(service_row(v@)),
                places.len() == v@.len(),
                places.no_duplicates(),
                forall|j: int|
                    0 <= j < places.len() ==> 0 <= #[trigger] places[j] < i && *v@[j]
                        == self.slots@[places[j]].entry,
                forall|k: int| 0 <= k < i ==> #[trigger] places.contains(k),
            decreases self.slots.len() - i,
        {
            let e: &ServiceEntry = &self.slots[i].entry;
            let ghost before = service_row(v@);
            let ghost held = v@;
            let mut k: usize = 0;
            while k < v.len() && !is_less(e.name.as_str(), v[k].name.as_str())
                invariant
                    k <= v.len(),
                    before == service_row(v@),
                    held == v@,
                    forall|j: int|
                        0 <= j < k ==> !text_less(e@.name, (#[trigger] before[j]).name),
                decreases v.len() - k,
            {
                assert(before[k as int] == v@[k as int]@);
                k += 1;
            }
            proof {
                if k < v@.len() {
                    assert(before[k as int] == v@[k as int]@);
                }
            }
            v.insert(k, e);
            proof {
                let old_places = places;
                assert(service_row(v@) =~= before.insert(k as int, e@));
                inserted_ascends(before, k as int, e@);
                places = old_places.insert(k as int, i as int);
                assert forall|j: int| 0 <= j < places.len() implies 0 <= #[trigger] places[j] < i
                    + 1 && *v@[j] == self.slots@[places[j]].entry by {
                    if j < k {
                        assert(places[j] == old_places[j] && v@[j] == held[j]);
                    } else if j > k {
                        assert(places[j] == old_places[j - 1] && v@[j] == held[j - 1]);
                    }
                }
                assert forall|a: int, b: int|
                    0 <= a < places.len() && 0 <= b < places.len() && a != b implies places[a]
                    != places[b] by {
                    let pa = if a < k {
                        a
                    } else {
                        a - 1
                    };
                    let pb = if b < k {
                        b
                    } else {
                        b - 1
                    };
                    if a != k {
                        assert(places[a] == old_places[pa]);
                    }
                    if b != k {
                        assert(places[b] == old_places[pb]);
                    }
                }
                assert forall|x: int| 0 <= x < i + 1 implies #[trigger] places.contains(x) by {
                    if x < i {
                        assert(old_places.contains(x));
                        let j = choose|j: int| 0 <= j < old_places.len() && old_places[j] == x;
                        if j < k {
                            assert(places[j] == x);
                        } else {
                            assert(places[j + 1] == x);
                        }
                    } else {
                        assert(places[k as int] == x);
                    }
                }
            }
            i += 1;
        }
        proof {
            let slots = self.slots@;
            let keys = places.map_values(|p: int| slots[p].key@);
            let row = service_row(v@);
            assert forall|a: int, b: int|
                0 <= a < keys.len() && 0 <= b < keys.len() && a != b implies keys[a] != keys[b] by {
                if places[a] < places[b] {
                    assert(slots[places[a]].key@ != slots[places[b]].key@);
                } else {
                    assert(slots[places[b]].key@ != slots[places[a]].key@);
                }
            }
            assert forall|j: int| 0 <= j < row.len() implies #[trigger] row[j]
                == self@.services[keys[j]] by {
                slot_at(slots, places[j]);
            }
            let dom = self@.services.dom();
            assert forall|x: Seq<char>| #[trigger] keys.to_set().contains(x) <==> dom.contains(
                x,
            ) by {
                if keys.to_set().contains(x) {
                    let j = choose|j: int| 0 <= j < keys.len() && keys[j] == x;
                    slot_at(slots, places[j]);
                }
                if dom.contains(x) {
                    let p = choose|p: int|
                        0 <= p < slots.len() && (#[trigger] slots[p]).key@ == x;
                    assert(places.contains(p));
                    let j = choose|j: int| 0 <= j < places.len() && places[j] == p;
                    assert(keys[j] == x);
                }
            }
            assert(keys.to_set() =~= dom);
            assert(lists_all(row, keys, self@));
            keys.unique_seq_to_set();
            if self@.folded() {
                listed_by_lookup(row, keys, self@);
            }
        }
        v
    }

    /// The names of the services, in no particular order.
    pub fn names(&self) -> (v: Vec<String>)
        requires
            self.wf(),
        ensures
            texts(v@).no_duplicates(),
            texts(v@).to_set() == self@.services.dom(),
    {
        let mut v: Vec<String> = Vec::new();
        let mut i: usize = 0;
        while i < self.slots.len()
            invariant
                i <= self.slots.len(),
                v@.len() == i,
                forall|j: int| 0 <= j < i ==> (#[trigger] v@[j])@ == self.slots@[j].key@,
            decreases self.slots.len() - i,
        {
            v.push(self.slots[i].key.clone());
            i += 1;
        }
        proof {
            let t = texts(v@);
            assert forall|a: int, b: int| 0 <= a < t.len() && 0 <= b < t.len() && a != b implies t[a]
                != t[b] by {
                assert(v@[a]@ == self.slots@[a].key@);
                assert(v@[b]@ == self.slots@[b].key@);
                if a < b {
                    assert(self.slots@[a].key@ != self.slots@[b].key@);
                } else {
                    assert(self.slots@[b].key@ != self.slots@[a].key@);
                }
            }
            let d = self@.services.dom();
            assert forall|k: Seq<char>| t.contains(k) <==> d.contains(k) by {
                if t.contains(k) {
                    let j = choose|j: int| 0 <= j < t.len() && t[j] == k;
                    assert(v@[j]@ == self.slots@[j].key@);
                    assert(self.slots@[j].key@ == k);
                }
                if d.contains(k) {
                    let j = choose|j: int|
                        0 <= j < self.slots@.len() && (#[trigger] self.slots@[j]).key@ == k;
                    assert(v@[j]@ == k);
                    assert(t[j] == k);
                }
            }
            assert(t.to_set() =~= d);
        }
        v
    }

    /// Whether a name is new: no service has it, in any case of letters.
    pub fn has_name(&self, name: &str) -> (b: bool)
        ensures
            b == !self@.services.contains_key(lowercase(name@)),
    {
        let key = to_lowercase(name);
        self.find(key.as_str()).is_none()
    }

    /// Adds the services that were kept from before. What the configuration
    /// file owns stays as it is.
    pub fn load_persisted(&mut self, entries: &Vec<ServiceEntry>)
        requires
            old(self).wf(),
        ensures
            final(self).wf(),
            final(self)@ == old(self)@.with_all_persisted(services(entries@)),
    {
        let ghost all = services(entries@);
        let mut i: usize = 0;
        assert(all.subrange(0, 0) =~= Seq::<ServiceView>::empty());
        while i < entries.len()
            invariant
                i <= entries.len(),
                all == services(entries@),
                self.wf(),
                self@ == old(self)@.with_all_persisted(all.subrange(0, i as int)),
            decreases entries.len() - i,
        {
            proof {
                let more = all.subrange(0, i + 1);
                assert(more.drop_last() =~= all.subrange(0, i as int));
                assert(more.last() == entries@[i as int]@);
            }
            let key = to_lowercase(entries[i].name.as_str());
            if !self.config_services.contains(key.as_str()) {
                self.put(key, entries[i].copy());
            }
            i += 1;
        }
        assert(all.subrange(0, all.len() as int) =~= all);
    }

    /// The services to keep across restarts: those whose names the
    /// configuration file does not own, but for the server's own, in any case of
    /// letters.
    pub fn user_services(&self) -> (v: Vec<ServiceEntry>)
        ensures
            services(v@) == kept_services(self.slots@, self@.config),
    {
        let ghost config = self@.config;
        let mut v: Vec<ServiceEntry> = Vec::new();
        let mut i: usize = 0;
        assert(self.slots@.subrange(0, 0) =~= Seq::<Slot>::empty());
        assert(services(v@) =~= Seq::<ServiceView>::empty());
        while i < self.slots.len()
            invariant
                i <= self.slots.len(),
                config == self@.config,
                services(v@) == kept_services(self.slots@.subrange(0, i as int), config),
            decreases self.slots.len() - i,
        {
            proof {
                let more = self.slots@.subrange(0, i + 1);
                assert(more.drop_last() =~= self.slots@.subrange(0, i as int));
                assert(more.last() == self.slots@[i as int]);
            }
            let ghost before = v@;
            let name = self.slots[i].entry.name.as_str();
            if !self.config_services.contains(name) && !eq_ignore_ascii_case(name, "numa") {
                let one = self.slots[i].entry.copy();
                v.push(one);
                assert(services(v@) =~= services(before).push(one@));
            }
            i += 1;
        }
        assert(self.slots@.subrange(0, self.slots@.len() as int) =~= self.slots@);
        v
    }
}

/// What the services are that references refer to.
pub open spec fn service_row(v: Seq<&ServiceEntry>) -> Seq<ServiceView> {
    v.map_values(|e: &ServiceEntry| e@)
}

/// Whether a row holds the services of a store, each once, under these keys.
pub open spec fn lists_all(row: Seq<ServiceView>, keys: Seq<Seq<char>>, store: StoreView) -> bool {
    &&& keys.len() == row.len()
    &&& keys.no_duplicates()
    &&& keys.to_set() == store.services.dom()
    &&& forall|i: int| 0 <= i < row.len() ==> #[trigger] row[i] == store.services[keys[i]]
}

/// Whether no service comes after one whose name comes after its own.
pub open spec fn in_name_order(v: Seq<ServiceView>) -> bool {
    forall|i: int, j: int|
        0 <= i < j < v.len() ==> !text_less((#[trigger] v[j]).name, (#[trigger] v[i]).name)
}

/// Whether the name of each service comes before that of the next.
pub open spec fn names_ascend(v: Seq<ServiceView>) -> bool {
    forall|i: int, j: int|
        0 <= i < j < v.len() ==> text_less((#[trigger] v[i]).name, (#[trigger] v[j]).name)
}

/// Whether a row holds exactly the services that their own names look up.
pub open spec fn holds_looked_up(row: Seq<ServiceView>, store: StoreView) -> bool {
    forall|e: ServiceView| #[trigger]
        row.contains(e) <==> store.looked_up(e.name) == Some(e)
}

/// Whether a row is a listing of the services of a store: each once, in the order
/// of their names. Where the names they are kept under are their own forms in
/// lower case, no two listed names are the same, and a service is listed exactly
/// if its name looks it up.
pub open spec fn is_listing(row: Seq<ServiceView>, store: StoreView) -> bool {
    &&& row.len() == store.services.dom().len()
    &&& in_name_order(row)
    &&& exists|keys: Seq<Seq<char>>| #[trigger] lists_all(row, keys, store)
    &&& store.folded() ==> names_ascend(row) && holds_looked_up(row, store)
}

/// Where the names that services are kept under are their own forms in lower
/// case, a listing holds each name once, in strict order, and exactly the services
/// that their own names look up.
pub proof fn listed_by_lookup(row: Seq<ServiceView>, keys: Seq<Seq<char>>, store: StoreView)
    requires
        store.named(),
        store.folded(),
        in_name_order(row),
        lists_all(row, keys, store),
    ensures
        names_ascend(row),
        holds_looked_up(row, store),
{
    let dom = store.services.dom();
    assert forall|i: int| 0 <= i < row.len() implies lowercase((#[trigger] row[i]).name)
        == keys[i] by {
        assert(keys.to_set().contains(keys[i]));
        assert(store.services.contains_key(keys[i]));
    }
    assert forall|i: int, j: int| 0 <= i < j < row.len() implies text_less(
        (#[trigger] row[i]).name,
        (#[trigger] row[j]).name,
    ) by {
        text_less_total(row[i].name, row[j].name);
        assert(lowercase(row[i].name) == keys[i] && lowercase(row[j].name) == keys[j]);
        assert(keys[i] != keys[j]);
    }
    assert forall|e: ServiceView| #[trigger] row.contains(e) <==> store.looked_up(e.name)
        == Some(e) by {
        if row.contains(e) {
            let i = choose|i: int| 0 <= i < row.len() && row[i] == e;
            assert(lowercase(row[i].name) == keys[i]);
            assert(keys.to_set().contains(keys[i]));
            assert(store.services.contains_key(keys[i]));
        }
        if store.looked_up(e.name) == Some(e) {
            let k = lowercase(e.name);
            assert(keys.to_set().contains(k));
            let i = choose|i: int| 0 <= i < keys.len() && keys[i] == k;
            assert(row[i] == e);
        }
    }
}

/// A name of ASCII characters in which no letter is in upper case is its own form
/// in lower case.
pub proof fn plain_key_is_folded(k: Seq<char>)
    requires
        forall|i: int| 0 <= i < k.len() ==> (#[trigger] k[i]) as u32 <= 127 && !('A' <= k[i]
            && k[i] <= 'Z'),
    ensures
        lowercase(k) == k,
{
    assert(lowercase(k) =~= k);
}

proof fn inserted_ascends(v: Seq<ServiceView>, k: int, e: ServiceView)
    requires
        in_name_order(v),
        0 <= k <= v.len(),
        forall|j: int| 0 <= j < k ==> !text_less(e.name, (#[trigger] v[j]).name),
        k < v.len() ==> text_less(e.name, v[k].name),
    ensures
        in_name_order(v.insert(k, e)),
{
    let w = v.insert(k, e);
    assert forall|i: int, j: int| 0 <= i < j < w.len() implies !text_less(
        (#[trigger] w[j]).name,
        (#[trigger] w[i]).name,
    ) by {
        let pi = if i < k {
            i
        } else {
            i - 1
        };
        let pj = if j < k {
            j
        } else {
            j - 1
        };
        if j == k {
            assert(w[i] == v[i]);
        } else if i == k {
            assert(w[j] == v[pj]);
            if text_less(v[pj].name, e.name) {
                text_less_trans(v[pj].name, e.name, v[k].name);
                if pj == k {
                    text_less_irreflexive(v[k].name);
                }
            }
        } else {
            assert(w[i] == v[pi] && w[j] == v[pj]);
        }
    }
}

/// The services whose names the configuration file does not own, but for the
/// server's own.
pub open spec fn kept_services(slots: Seq<Slot>, config: Set<Seq<char>>) -> Seq<ServiceView>
    decreases slots.len(),
{
    if slots.len() == 0 {
        Seq::empty()
    } else {
        let before = kept_services(slots.drop_last(), config);
        let name = slots.last().entry@.name;
        if config.contains(name) || ascii_lowercase(name) == ascii_lowercase("numa"@) {
            before
        } else {
            before.push(slots.last().entry@)
        }
    }
}

impl Default for ServiceStore {
    fn default() -> (r: Self)
        ensures
            r.wf(),
            r@ == (StoreView { services: Map::empty(), config: Set::empty() }),
    {
        Self::new()
    }
}

/// What is kept from before never replaces a service of the configuration file.
pub proof fn configured_services_stay(store: StoreView, es: Seq<ServiceView>, key: Seq<char>)
    requires
        store.config.contains(key),
        store.services.contains_key(key),
    ensures
        store.with_all_persisted(es).config == store.config,
        store.with_all_persisted(es).services.contains_key(key),
        store.with_all_persisted(es).services[key] == store.services[key],
    decreases es.len(),
{
    if es.len() > 0 {
        configured_services_stay(store, es.drop_last(), key);
    }
}

} // verus!
