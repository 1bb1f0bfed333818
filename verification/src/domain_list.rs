//! A set of domains in two layers: entries that the configuration file owns,
//! and entries that were added while running, which are kept across restarts.
use vstd::prelude::*;

use crate::memory::{byte_lens, place_bytes, room_of, rooms_hold, table_room};
use crate::name_set::{ascending, NameSet};
use crate::text::{
    all_ascii, chars_of, has_suffix, lowercase, lowercase_again, string_range, texts, to_lowercase,
    trim_end_char, without_trailing,
};

verus! {

/// A domain in lower case and without a dot at its end.
pub open spec fn normalized(domain: Seq<char>) -> Seq<char> {
    without_trailing(lowercase(domain), '.')
}

/// A domain in lower case and without a dot at its end.
pub fn normalize(domain: &str) -> (s: String)
    ensures
        s@ == normalized(domain@),
{
    let lower = to_lowercase(domain);
    trim_end_char(lower.as_str(), '.')
}

/// What follows the first dot of a domain.
pub open spec fn parent(domain: Seq<char>) -> Option<Seq<char>>
    decreases domain.len(),
{
    if domain.len() == 0 {
        None
    } else if domain[0] == '.' {
        Some(domain.drop_first())
    } else {
        parent(domain.drop_first())
    }
}

pub proof fn parent_is_shorter(domain: Seq<char>)
    ensures
        parent(domain) matches Some(p) ==> p.len() < domain.len(),
    decreases domain.len(),
{
    if domain.len() > 0 && domain[0] != '.' {
        parent_is_shorter(domain.drop_first());
    }
}

/// The longest of a domain and its parents that is in a set.
pub open spec fn nearest(domain: Seq<char>, set: Set<Seq<char>>) -> Option<Seq<char>>
    decreases domain.len(),
    via nearest_terminates
{
    if set.contains(domain) {
        Some(domain)
    } else {
        match parent(domain) {
            Some(p) => nearest(p, set),
            None => None,
        }
    }
}

#[via_fn]
proof fn nearest_terminates(domain: Seq<char>, set: Set<Seq<char>>) {
    parent_is_shorter(domain);
}

/// Whether a domain is another or lies under it.
pub open spec fn under(domain: Seq<char>, entry: Seq<char>) -> bool {
    domain == entry || has_suffix(domain, seq!['.'] + entry)
}

/// Whether a domain is in a set or lies under one that is.
pub open spec fn covered(domain: Seq<char>, set: Set<Seq<char>>) -> bool {
    exists|entry: Seq<char>| set.contains(entry) && under(domain, entry)
}

/// A domain lies under its parent, and under whatever its parent lies under.
pub proof fn under_parent(domain: Seq<char>, entry: Seq<char>)
    ensures
        parent(domain) matches Some(p) ==> (has_suffix(domain, seq!['.'] + entry) <==> under(
            p,
            entry,
        )),
        parent(domain) is None ==> !has_suffix(domain, seq!['.'] + entry),
    decreases domain.len(),
{
    let tail = seq!['.'] + entry;
    if domain.len() > 0 {
        let rest = domain.drop_first();
        let at = domain.len() - tail.len();
        if has_suffix(domain, tail) {
            assert(domain.subrange(at, domain.len() as int)[0] == '.');
            if at > 0 {
                assert(rest.subrange(at - 1, rest.len() as int) =~= tail);
                assert(has_suffix(rest, tail));
            } else {
                assert(rest =~= entry) by {
                    assert(domain.subrange(0, domain.len() as int) =~= domain);
                    assert(tail.drop_first() =~= entry);
                }
            }
        }
        if has_suffix(rest, tail) {
            assert(domain.subrange(at, domain.len() as int) =~= tail);
        }
        if domain[0] == '.' {
            if rest == entry {
                assert(domain =~= tail);
                assert(domain.subrange(0, domain.len() as int) =~= domain);
            }
        } else {
            under_parent(rest, entry);
            if has_suffix(domain, tail) && at == 0 {
                assert(domain[0] == '.');
            }
        }
    }
}

/// A domain is covered exactly where one of it and its parents is in the set.
pub proof fn nearest_covers(domain: Seq<char>, set: Set<Seq<char>>)
    ensures
        nearest(domain, set) is Some <==> covered(domain, set),
        nearest(domain, set) matches Some(e) ==> set.contains(e) && under(domain, e),
    decreases domain.len(),
{
    if set.contains(domain) {
        assert(under(domain, domain));
    } else {
        parent_is_shorter(domain);
        match parent(domain) {
            Some(p) => {
                nearest_covers(p, set);
                if covered(p, set) {
                    let e = choose|e: Seq<char>| set.contains(e) && under(p, e);
                    under_parent(domain, e);
                    assert(set.contains(e) && under(domain, e));
                }
                if let Some(e) = nearest(p, set) {
                    under_parent(domain, e);
                }
                if covered(domain, set) {
                    let e = choose|e: Seq<char>| set.contains(e) && under(domain, e);
                    under_parent(domain, e);
                    assert(set.contains(e) && under(p, e));
                }
            },
            None => {
                if covered(domain, set) {
                    let e = choose|e: Seq<char>| set.contains(e) && under(domain, e);
                    under_parent(domain, e);
                }
            },
        }
    }
}

/// The part of a domain that is in a set: the domain itself or its nearest
/// parent that is.
pub fn find_in_set<'a>(domain: &'a str, set: &NameSet) -> (r: Option<&'a str>)
    ensures
        match r {
            Some(s) => nearest(domain@, set@) == Some(s@),
            None => nearest(domain@, set@) is None,
        },
{
    let x = chars_of(domain);
    let n: usize = x.len();
    let mut from: usize = 0;
    assert(x@.subrange(0, n as int) =~= x@);
    loop
        invariant
            x@ == domain@,
            n == x.len(),
            from <= n,
            nearest(domain@, set@) == nearest(x@.subrange(from as int, n as int), set@),
        decreases n - from,
    {
        let ghost rest = x@.subrange(from as int, n as int);
        let part = string_range(x.as_slice(), from, n);
        if set.contains(part.as_str()) {
            return Some(domain.substring_char(from, n));
        }
        let mut i: usize = from;
        while i < n && x[i] != '.'
            invariant
                n == x.len(),
                from <= i <= n,
                parent(rest) == parent(x@.subrange(i as int, n as int)),
            decreases n - i,
        {
            let ghost here = x@.subrange(i as int, n as int);
            assert(here.len() > 0 && here[0] == x@[i as int]);
            assert(here.drop_first() =~= x@.subrange(i + 1, n as int));
            i += 1;
        }
        let ghost here = x@.subrange(i as int, n as int);
        assert(here.len() == n - i);
        if i == n {
            return None;
        }
        assert(here[0] == x@[i as int]);
        assert(here.drop_first() =~= x@.subrange(i + 1, n as int));
        from = i + 1;
    }
}

/// The two layers of a domain list.
pub struct DomainListView {
    pub config: Set<Seq<char>>,
    pub user: Set<Seq<char>>,
}

impl DomainListView {
    /// All entries.
    pub open spec fn all(&self) -> Set<Seq<char>> {
        self.config.union(self.user)
    }

    /// Whether no entry is in both layers.
    pub open spec fn disjoint(&self) -> bool {
        self.config.disjoint(self.user)
    }

    /// The layers with persisted entries loaded: each in the user layer,
    /// unless the configuration holds it.
    pub open spec fn with_persisted(&self, entries: Seq<Seq<char>>) -> DomainListView
        decreases entries.len(),
    {
        if entries.len() == 0 {
            *self
        } else {
            self.with_persisted(entries.drop_last()).with_user(entries.last())
        }
    }

    /// The layers with an entry added while running.
    pub open spec fn with_user(&self, domain: Seq<char>) -> DomainListView {
        let d = normalized(domain);
        if self.config.contains(d) {
            *self
        } else {
            DomainListView { config: self.config, user: self.user.insert(d) }
        }
    }

    /// The layers with an entry of the configuration added, which no longer counts
    /// as one that was added while running.
    pub open spec fn with_config(&self, domain: Seq<char>) -> DomainListView {
        let d = normalized(domain);
        DomainListView { config: self.config.insert(d), user: self.user.remove(d) }
    }

    /// The layers with entries of the configuration added.
    pub open spec fn with_seeds(&self, seeds: Seq<Seq<char>>) -> DomainListView
        decreases seeds.len(),
    {
        if seeds.len() == 0 {
            *self
        } else {
            self.with_seeds(seeds.drop_last()).with_config(seeds.last())
        }
    }

    /// The layers without an entry that was added while running.
    pub open spec fn without_user(&self, domain: Seq<char>) -> DomainListView {
        DomainListView { config: self.config, user: self.user.remove(normalized(domain)) }
    }

    /// The entry that a normalized domain is or lies under: the nearest in the
    /// configuration, else the nearest of the others.
    pub open spec fn found(&self, domain: Seq<char>) -> Option<Seq<char>> {
        match nearest(domain, self.config) {
            Some(e) => Some(e),
            None => nearest(domain, self.user),
        }
    }

    /// Whether a domain is an entry or lies under one.
    pub open spec fn covers(&self, domain: Seq<char>) -> bool {
        covered(normalized(domain), self.all())
    }
}

/// A list of domains in two layers.
#[derive(Debug)]
pub struct PersistedDomainList {
    config: NameSet,
    user: NameSet,
}

impl View for PersistedDomainList {
    type V = DomainListView;

    closed spec fn view(&self) -> DomainListView {
        DomainListView { config: self.config@, user: self.user@ }
    }
}

/// The empty list.
pub open spec fn no_domains() -> DomainListView {
    DomainListView { config: Set::empty(), user: Set::empty() }
}

impl PersistedDomainList {
    #[verifier::type_invariant]
    spec fn layered(&self) -> bool {
        self@.disjoint()
    }

    /// The list of the configuration's entries and the entries that were kept
    /// from before. The configuration comes first, so it has what is in both.
    pub fn new(config_seeds: &Vec<String>, persisted: &Vec<String>) -> (r: Self)
        ensures
            r@ == no_domains().with_seeds(texts(config_seeds@)).with_persisted(texts(persisted@)),
            r@.disjoint(),
    {
        let mut list = Self::unpersisted();
        let ghost all = texts(config_seeds@);
        let mut i: usize = 0;
        assert(all.subrange(0, 0) =~= Seq::<Seq<char>>::empty());
        while i < config_seeds.len()
            invariant
                i <= config_seeds.len(),
                all == texts(config_seeds@),
                list@ == no_domains().with_seeds(all.subrange(0, i as int)),
            decreases config_seeds.len() - i,
        {
            proof {
                let more = all.subrange(0, i + 1);
                assert(more.drop_last() =~= all.subrange(0, i as int));
                assert(more.last() == config_seeds@[i as int]@);
            }
            list.insert_from_config(config_seeds[i].as_str());
            i += 1;
        }
        assert(all.subrange(0, all.len() as int) =~= all);
        list.load_persisted(persisted);
        list
    }

    /// The empty list.
    pub fn unpersisted() -> (r: Self)
        ensures
            r@ == no_domains(),
    {
        PersistedDomainList { config: NameSet::new(), user: NameSet::new() }
    }

    /// Adds an entry of the configuration. Where it was added while running, the
    /// configuration owns it from now on.
    pub fn insert_from_config(&mut self, domain: &str)
        ensures
            final(self)@ == old(self)@.with_config(domain@),
            final(self)@.disjoint(),
    {
        proof {
            use_type_invariant(&*self);
        }
        let d = normalize(domain);
        let mut user = NameSet::new();
        std::mem::swap(&mut user, &mut self.user);
        let _gone = user.remove(d.as_str());
        self.user = user;
        let mut config = NameSet::new();
        std::mem::swap(&mut config, &mut self.config);
        let _new = config.insert(d);
        self.config = config;
    }

    /// Adds an entry while running, and says whether the entries to keep have
    /// changed. Nothing changes where the configuration holds it or it is there.
    pub fn insert(&mut self, domain: &str) -> (changed: bool)
        ensures
            final(self)@ == old(self)@.with_user(domain@),
            changed <==> final(self)@.user != old(self)@.user,
            final(self)@.disjoint(),
    {
        proof {
            use_type_invariant(&*self);
        }
        let d = normalize(domain);
        let ghost t = d@;
        if self.config.contains(d.as_str()) {
            return false;
        }
        let mut user = NameSet::new();
        std::mem::swap(&mut user, &mut self.user);
        let new = user.insert(d);
        self.user = user;
        proof {
            if !new {
                assert(old(self)@.user.insert(t) =~= old(self)@.user);
            } else {
                assert(self@.user.contains(t));
            }
        }
        new
    }

    /// Removes an entry that was added while running, and says whether it was
    /// there. Entries of the configuration stay.
    pub fn remove(&mut self, domain: &str) -> (removed: bool)
        ensures
            final(self)@ == old(self)@.without_user(domain@),
            removed == old(self)@.user.contains(normalized(domain@)),
            final(self)@.disjoint(),
    {
        proof {
            use_type_invariant(&*self);
        }
        let d = normalize(domain);
        let mut user = NameSet::new();
        std::mem::swap(&mut user, &mut self.user);
        let removed = user.remove(d.as_str());
        self.user = user;
        removed
    }

    /// Whether a domain is an entry or lies under one.
    pub fn matches(&self, qname: &str) -> (b: bool)
        ensures
            b == self@.covers(qname@),
    {
        let d = normalize(qname);
        let r = self.find_normalized(d.as_str());
        proof {
            nearest_covers(d@, self@.config);
            nearest_covers(d@, self@.user);
            if covered(d@, self@.all()) {
                let e = choose|e: Seq<char>| self@.all().contains(e) && under(d@, e);
                if self@.config.contains(e) {
                    assert(covered(d@, self@.config));
                } else {
                    assert(covered(d@, self@.user));
                }
            }
            if covered(d@, self@.config) {
                let e = choose|e: Seq<char>| self@.config.contains(e) && under(d@, e);
                assert(self@.all().contains(e));
            }
            if covered(d@, self@.user) {
                let e = choose|e: Seq<char>| self@.user.contains(e) && under(d@, e);
                assert(self@.all().contains(e));
            }
        }
        r.is_some()
    }

    /// The entry that a normalized domain is or lies under.
    pub fn find_normalized<'a>(&self, domain: &'a str) -> (r: Option<&'a str>)
        ensures
            match r {
                Some(s) => self@.found(domain@) == Some(s@),
                None => self@.found(domain@) is None,
            },
    {
        match find_in_set(domain, &self.config) {
            Some(s) => Some(s),
            None => find_in_set(domain, &self.user),
        }
    }

    /// Whether a domain is an entry of the configuration.
    pub fn is_config(&self, domain: &str) -> (b: bool)
        ensures
            b == self@.config.contains(normalized(domain@)),
    {
        let d = normalize(domain);
        self.config.contains(d.as_str())
    }

    /// All entries, in order.
    pub fn entries(&self) -> (v: Vec<String>)
        ensures
            ascending(texts(v@)),
            texts(v@).to_set() == self@.all(),
    {
        self.config.sorted_with(&self.user)
    }

    /// The entries that are kept across restarts, in order.
    pub fn user_entries(&self) -> (v: Vec<String>)
        ensures
            ascending(texts(v@)),
            texts(v@).to_set() == self@.user,
    {
        self.user.sorted()
    }

    /// The number of entries. No entry is in both layers.
    pub fn len(&self) -> (n: usize)
        requires
            self@.all().len() <= usize::MAX,
        ensures
            n == self@.all().len(),
            self@.all().finite(),
            self@.disjoint(),
    {
        proof {
            use_type_invariant(self);
        }
        let a: usize = self.config.len();
        let b: usize = self.user.len();
        proof {
            vstd::set_lib::lemma_set_disjoint_lens(self@.config, self@.user);
            assert(self@.all() =~= self@.config + self@.user);
        }
        a + b
    }

    /// Whether there is no entry.
    pub fn is_empty(&self) -> (b: bool)
        ensures
            b <==> self@.all() == Set::<Seq<char>>::empty(),
    {
        let a = self.config.is_empty();
        let b = self.user.is_empty();
        proof {
            if a && b {
                assert(self@.all() =~= Set::<Seq<char>>::empty());
            }
            if self@.all() == Set::<Seq<char>>::empty() {
                assert forall|x: Seq<char>| !self@.config.contains(x) && !self@.user.contains(
                    x,
                ) by {
                    assert(!self@.all().contains(x));
                }
                assert(self@.config =~= Set::<Seq<char>>::empty());
                assert(self@.user =~= Set::<Seq<char>>::empty());
            }
        }
        a && b
    }

    /// Adds the entries that were kept from before.
    pub fn load_persisted(&mut self, persisted: &Vec<String>)
        ensures
            final(self)@ == old(self)@.with_persisted(texts(persisted@)),
            final(self)@.disjoint(),
    {
        proof {
            use_type_invariant(&*self);
        }
        let ghost all = texts(persisted@);
        let mut i: usize = 0;
        assert(all.subrange(0, 0) =~= Seq::<Seq<char>>::empty());
        while i < persisted.len()
            invariant
                i <= persisted.len(),
                all == texts(persisted@),
                self@ == old(self)@.with_persisted(all.subrange(0, i as int)),
                self@.disjoint(),
            decreases persisted.len() - i,
        {
            proof {
                let more = all.subrange(0, i + 1);
                assert(more.drop_last() =~= all.subrange(0, i as int));
                assert(more.last() == persisted@[i as int]@);
            }
            let _new = self.insert(persisted[i].as_str());
            i += 1;
        }
        assert(all.subrange(0, all.len() as int) =~= all);
    }
}

/// Normalizing an ASCII domain twice is normalizing it once.
pub proof fn normalized_again(domain: Seq<char>)
    requires
        all_ascii(domain),
    ensures
        normalized(normalized(domain)) == normalized(domain),
{
    let low = lowercase(domain);
    lowercase_again(domain);
    trailing_cut(low, '.');
    let n = normalized(domain);
    assert(n =~= low.subrange(0, n.len() as int));
    assert(all_ascii(n));
    assert(lowercase(n) =~= n) by {
        assert forall|i: int| 0 <= i < n.len() implies lowercase(n)[i] == n[i] by {
            assert(lowercase(low)[i] == low[i]);
        }
    }
}

proof fn trailing_cut(s: Seq<char>, c: char)
    ensures
        without_trailing(s, c).len() <= s.len(),
        without_trailing(s, c) == s.subrange(0, without_trailing(s, c).len() as int),
        without_trailing(without_trailing(s, c), c) == without_trailing(s, c),
    decreases s.len(),
{
    if s.len() > 0 && s[s.len() - 1] == c {
        let t = s.subrange(0, s.len() - 1);
        trailing_cut(t, c);
        let r = without_trailing(s, c);
        assert(t.subrange(0, r.len() as int) =~= s.subrange(0, r.len() as int));
    } else {
        assert(s.subrange(0, s.len() as int) =~= s);
    }
}

/// What was added while running survives a restart: where the kept entries are
/// normalized, loading them gives them back, but for those that the
/// configuration has come to hold.
pub proof fn kept_entries_come_back(
    list: DomainListView,
    kept: Seq<Seq<char>>,
    fresh: DomainListView,
)
    requires
        kept.to_set() == list.user,
        forall|e: Seq<char>| #[trigger] list.user.contains(e) ==> normalized(e) == e,
        fresh.user == Set::<Seq<char>>::empty(),
    ensures
        fresh.with_persisted(kept).config == fresh.config,
        fresh.with_persisted(kept).user == list.user.difference(fresh.config),
{
    loaded_entries(fresh, kept);
    let got = fresh.with_persisted(kept).user;
    assert forall|x: Seq<char>| #[trigger] got.contains(x) <==> (list.user.contains(x)
        && !fresh.config.contains(x)) by {
        if list.user.contains(x) {
            assert(kept.to_set().contains(x));
            let k = choose|k: int| 0 <= k < kept.len() && kept[k] == x;
            assert(normalized(kept[k]) == x);
        }
        if got.contains(x) {
            let k = choose|k: int| 0 <= k < kept.len() && normalized(#[trigger] kept[k]) == x;
            assert(kept.to_set().contains(kept[k]));
        }
    }
    assert(got =~= list.user.difference(fresh.config));
}

proof fn loaded_entries(fresh: DomainListView, kept: Seq<Seq<char>>)
    requires
        fresh.user == Set::<Seq<char>>::empty(),
    ensures
        fresh.with_persisted(kept).config == fresh.config,
        forall|x: Seq<char>| #[trigger]
            fresh.with_persisted(kept).user.contains(x) <==> (!fresh.config.contains(x) && exists|
                k: int,
            |
                0 <= k < kept.len() && normalized(#[trigger] kept[k]) == x),
    decreases kept.len(),
{
    if kept.len() > 0 {
        let before = kept.drop_last();
        loaded_entries(fresh, before);
        let got = fresh.with_persisted(kept).user;
        assert forall|x: Seq<char>| #[trigger] got.contains(x) <==> (!fresh.config.contains(x)
            && exists|k: int| 0 <= k < kept.len() && normalized(#[trigger] kept[k]) == x) by {
            if exists|k: int| 0 <= k < before.len() && normalized(#[trigger] before[k]) == x {
                let k = choose|k: int|
                    0 <= k < before.len() && normalized(#[trigger] before[k]) == x;
                assert(normalized(kept[k]) == x);
            }
            if exists|k: int| 0 <= k < kept.len() && normalized(#[trigger] kept[k]) == x {
                let k = choose|k: int| 0 <= k < kept.len() && normalized(#[trigger] kept[k]) == x;
                if k < before.len() {
                    assert(normalized(before[k]) == x);
                }
            }
            if normalized(kept.last()) == x {
                assert(normalized(kept[kept.len() - 1]) == x);
            }
        }
    }
}

/// What the configuration covers stays covered, whatever is removed while running.
pub proof fn configured_entries_stay(list: DomainListView, removed: Seq<char>, domain: Seq<char>)
    requires
        covered(normalized(domain), list.config),
    ensures
        list.without_user(removed).covers(domain),
{
    let d = normalized(domain);
    let e = choose|e: Seq<char>| list.config.contains(e) && under(d, e);
    assert(list.without_user(removed).all().contains(e));
}

impl PersistedDomainList {
    /// An estimate of the memory that the entries take: for each a place in a
    /// table and its room, or the largest number. How much more room an entry has
    /// than it needs is up to the allocator.
    pub fn heap_bytes(&self) -> (n: usize)
        ensures
            exists|names: Seq<Seq<char>>, rooms: Seq<usize>|
                names.no_duplicates() && names.to_set() == self@.all() && #[trigger] room_of(
                    n,
                    place_bytes(),
                    byte_lens(names),
                    rooms,
                ),
    {
        proof {
            use_type_invariant(self);
        }
        let mut rooms = self.config.rooms();
        let mut more = self.user.rooms();
        let ghost a = rooms@;
        let ghost b = more@;
        let ghost x = self.config.row();
        let ghost y = self.user.row();
        rooms.append(&mut more);
        let n: usize = table_room(&rooms);
        proof {
            let names = x + y;
            assert(rooms@ =~= a + b);
            assert forall|i: int| 0 <= i < names.len() implies #[trigger] rooms@[i] >= byte_lens(
                names,
            )[i] by {
                if i < x.len() {
                    assert(a[i] >= byte_lens(x)[i]);
                } else {
                    assert(b[i - x.len()] >= byte_lens(y)[i - x.len()]);
                }
            }
            rooms_hold(rooms@, byte_lens(names));
            assert forall|i: int, j: int|
                0 <= i < names.len() && 0 <= j < names.len() && i != j implies names[i]
                != names[j] by {
                if i < x.len() && j >= x.len() {
                    assert(x.to_set().contains(names[i]) && y.to_set().contains(names[j]));
                } else if j < x.len() && i >= x.len() {
                    assert(x.to_set().contains(names[j]) && y.to_set().contains(names[i]));
                } else if i >= x.len() {
                    assert(y[i - x.len()] != y[j - x.len()]);
                }
            }
            assert forall|t: Seq<char>| #[trigger]
                names.to_set().contains(t) <==> self@.all().contains(t) by {
                if names.to_set().contains(t) {
                    let k = choose|k: int| 0 <= k < names.len() && names[k] == t;
                    if k < x.len() {
                        assert(x.to_set().contains(x[k]));
                    } else {
                        assert(y.to_set().contains(y[k - x.len()]));
                    }
                }
                if self@.config.contains(t) {
                    let k = choose|k: int| 0 <= k < x.len() && x[k] == t;
                    assert(names[k] == t);
                } else if self@.user.contains(t) {
                    let k = choose|k: int| 0 <= k < y.len() && y[k] == t;
                    assert(names[x.len() + k] == t);
                }
            }
            assert(names.to_set() =~= self@.all());
            assert(room_of(n, place_bytes(), byte_lens(names), rooms@));
        }
        n
    }
}

/// No entry is ever in both layers: neither adding nor removing one puts it there.
pub proof fn layers_stay_disjoint(list: DomainListView, domain: Seq<char>)
    requires
        list.disjoint(),
    ensures
        no_domains().disjoint(),
        list.with_config(domain).disjoint(),
        list.with_user(domain).disjoint(),
        list.without_user(domain).disjoint(),
{
}

/// An entry counts once, whichever way it was added, and in whichever order.
pub proof fn entries_count_once(list: DomainListView, domain: Seq<char>)
    ensures
        list.with_user(domain).all() == list.all().insert(normalized(domain)),
        list.with_config(domain).all() == list.all().insert(normalized(domain)),
        list.with_user(domain).with_config(domain).all() == list.with_config(domain).with_user(
            domain,
        ).all(),
{
    let d = normalized(domain);
    let all = list.all().insert(d);
    assert(list.with_user(domain).all() =~= all);
    assert(list.with_config(domain).all() =~= all);
    assert(list.with_user(domain).with_config(domain).all() =~= all);
    assert(list.with_config(domain).with_user(domain).all() =~= all);
}

} // verus!
