//! Sets of texts, and texts in order.
use vstd::prelude::*;

use crate::memory::{byte_lens, fits, place_bytes, room_of, rooms_hold, table_room};
use crate::text::{chars_of, str_eq, texts};

verus! {

/// Whether `a` comes before `b` in the order of their characters.
pub open spec fn text_less(a: Seq<char>, b: Seq<char>) -> bool
    decreases a.len(),
{
    if b.len() == 0 {
        false
    } else if a.len() == 0 {
        true
    } else if a[0] == b[0] {
        text_less(a.drop_first(), b.drop_first())
    } else {
        a[0] < b[0]
    }
}

/// Whether each text comes before the next.
pub open spec fn ascending(s: Seq<Seq<char>>) -> bool {
    forall|i: int, j: int| 0 <= i < j < s.len() ==> text_less(#[trigger] s[i], #[trigger] s[j])
}

pub proof fn text_less_trans(a: Seq<char>, b: Seq<char>, c: Seq<char>)
    requires
        text_less(a, b),
        text_less(b, c),
    ensures
        text_less(a, c),
    decreases a.len(),
{
    if a.len() > 0 && b.len() > 0 && c.len() > 0 && a[0] == b[0] && b[0] == c[0] {
        text_less_trans(a.drop_first(), b.drop_first(), c.drop_first());
    }
}

pub proof fn text_less_total(a: Seq<char>, b: Seq<char>)
    ensures
        text_less(a, b) || text_less(b, a) || a == b,
    decreases a.len(),
{
    if a.len() > 0 && b.len() > 0 && a[0] == b[0] {
        text_less_total(a.drop_first(), b.drop_first());
        if a.drop_first() == b.drop_first() {
            assert(a =~= seq![a[0]] + a.drop_first());
            assert(b =~= seq![b[0]] + b.drop_first());
        }
    } else if a.len() == 0 && b.len() == 0 {
        assert(a =~= b);
    }
}

pub proof fn text_less_irreflexive(a: Seq<char>)
    ensures
        !text_less(a, a),
    decreases a.len(),
{
    if a.len() > 0 {
        text_less_irreflexive(a.drop_first());
    }
}

/// Whether `a` comes before `b` in the order of their characters.
pub fn is_less(a: &str, b: &str) -> (r: bool)
    ensures
        r == text_less(a@, b@),
{
    let x = chars_of(a);
    let y = chars_of(b);
    let mut i: usize = 0;
    proof {
        assert(a@.subrange(0, a@.len() as int) =~= a@);
        assert(b@.subrange(0, b@.len() as int) =~= b@);
    }
    loop
        invariant
            x@ == a@,
            y@ == b@,
            i <= x.len(),
            i <= y.len(),
            text_less(a@, b@) == text_less(
                a@.subrange(i as int, a@.len() as int),
                b@.subrange(i as int, b@.len() as int),
            ),
        decreases x.len() - i,
    {
        let ghost ra = a@.subrange(i as int, a@.len() as int);
        let ghost rb = b@.subrange(i as int, b@.len() as int);
        assert(ra.len() == a@.len() - i && rb.len() == b@.len() - i);
        if i == y.len() {
            return false;
        }
        if i == x.len() {
            return true;
        }
        assert(ra[0] == a@[i as int] && rb[0] == b@[i as int]);
        if x[i] != y[i] {
            return x[i] < y[i];
        }
        proof {
            assert(ra.drop_first() =~= a@.subrange(i + 1, a@.len() as int));
            assert(rb.drop_first() =~= b@.subrange(i + 1, b@.len() as int));
        }
        i += 1;
    }
}

/// Puts a text into a row of ascending texts, unless it is there.
fn insert_sorted(v: &mut Vec<String>, s: &String)
    requires
        ascending(texts(old(v)@)),
    ensures
        ascending(texts(final(v)@)),
        texts(final(v)@).to_set() == texts(old(v)@).to_set().insert(s@),
{
    let ghost before = texts(v@);
    let mut i: usize = 0;
    while i < v.len() && is_less(v[i].as_str(), s.as_str())
        invariant
            i <= v.len(),
            texts(v@) == before,
            v@ == old(v)@,
            forall|j: int| 0 <= j < i ==> text_less(#[trigger] before[j], s@),
        decreases v.len() - i,
    {
        assert(before[i as int] == v@[i as int]@);
        i += 1;
    }
    if i < v.len() {
        assert(before[i as int] == v@[i as int]@);
    }
    if i < v.len() && str_eq(v[i].as_str(), s.as_str()) {
        assert(before.to_set() =~= before.to_set().insert(s@)) by {
            assert(before.contains(before[i as int]));
        }
        return;
    }
    v.insert(i, s.clone());
    proof {
        let after = texts(v@);
        assert(after =~= before.insert(i as int, s@));
        if i < before.len() {
            text_less_total(before[i as int], s@);
        }
        assert forall|a: int, b: int| 0 <= a < b < after.len() implies text_less(
            #[trigger] after[a],
            #[trigger] after[b],
        ) by {
            let pa = if a < i {
                a
            } else {
                a - 1
            };
            let pb = if b < i {
                b
            } else {
                b - 1
            };
            if a == i {
                assert(after[b] == before[b - 1]);
                if b - 1 > i {
                    text_less_trans(s@, before[i as int], before[b - 1]);
                }
            } else if b == i {
                assert(after[a] == before[a]);
            } else {
                assert(after[a] == before[pa] && after[b] == before[pb]);
            }
        }
        assert(after.to_set() =~= before.to_set().insert(s@)) by {
            assert forall|t: Seq<char>| #[trigger]
                after.contains(t) <==> (before.contains(t) || t == s@) by {
                if after.contains(t) {
                    let k = choose|k: int| 0 <= k < after.len() && after[k] == t;
                    if k < i {
                        assert(before[k] == t);
                    } else if k > i {
                        assert(before[k - 1] == t);
                    }
                }
                if before.contains(t) {
                    let k = choose|k: int| 0 <= k < before.len() && before[k] == t;
                    if k < i {
                        assert(after[k] == t);
                    } else {
                        assert(after[k + 1] == t);
                    }
                }
                if t == s@ {
                    assert(after[i as int] == t);
                }
            }
        }
    }
}

proof fn push_grows(s: Seq<Seq<char>>, t: Seq<char>)
    ensures
        s.push(t).to_set() == s.to_set().insert(t),
{
    let p = s.push(t);
    assert forall|x: Seq<char>| #[trigger] p.contains(x) <==> (s.contains(x) || x == t) by {
        if s.contains(x) {
            let k = choose|k: int| 0 <= k < s.len() && s[k] == x;
            assert(p[k] == x);
        }
        if x == t {
            assert(p[s.len() as int] == x);
        }
    }
    assert(p.to_set() =~= s.to_set().insert(t));
}

pub proof fn subrange_grows(s: Seq<Seq<char>>, i: int)
    requires
        0 <= i < s.len(),
    ensures
        s.subrange(0, i + 1).to_set() == s.subrange(0, i).to_set().insert(s[i]),
{
    assert(s.subrange(0, i + 1) =~= s.subrange(0, i).push(s[i]));
    push_grows(s.subrange(0, i), s[i]);
}

/// A set of texts.
#[derive(Debug)]
pub struct NameSet {
    items: Vec<String>,
}

impl View for NameSet {
    type V = Set<Seq<char>>;

    closed spec fn view(&self) -> Set<Seq<char>> {
        texts(self.items@).to_set()
    }
}

impl NameSet {
    #[verifier::type_invariant]
    spec fn distinct(&self) -> bool {
        texts(self.items@).no_duplicates()
    }

    /// The texts in the order in which they are held.
    pub closed spec fn row(&self) -> Seq<Seq<char>> {
        texts(self.items@)
    }

    /// The empty set.
    pub fn new() -> (r: Self)
        ensures
            r@ == Set::<Seq<char>>::empty(),
    {
        let r = NameSet { items: Vec::new() };
        assert(r@ =~= Set::<Seq<char>>::empty());
        r
    }

    /// Where a text is held.
    fn find(&self, s: &str) -> (r: Option<usize>)
        ensures
            match r {
                Some(i) => i < self.items@.len() && self.items@[i as int]@ == s@,
                None => !texts(self.items@).contains(s@),
            },
    {
        let mut i: usize = 0;
        while i < self.items.len()
            invariant
                i <= self.items.len(),
                forall|j: int| 0 <= j < i ==> (#[trigger] texts(self.items@)[j]) != s@,
            decreases self.items.len() - i,
        {
            if str_eq(self.items[i].as_str(), s) {
                return Some(i);
            }
            assert(texts(self.items@)[i as int] == self.items@[i as int]@);
            i += 1;
        }
        None
    }

    /// Whether a text is in the set.
    pub fn contains(&self, s: &str) -> (b: bool)
        ensures
            b == self@.contains(s@),
    {
        match self.find(s) {
            Some(i) => {
                assert(texts(self.items@)[i as int] == s@);
                true
            },
            None => false,
        }
    }

    /// Puts a text into the set, and says whether it was not there before.
    pub fn insert(&mut self, s: String) -> (b: bool)
        ensures
            b == !old(self)@.contains(s@),
            final(self)@ == old(self)@.insert(s@),
    {
        if self.contains(s.as_str()) {
            assert(self@ =~= self@.insert(s@));
            return false;
        }
        proof {
            use_type_invariant(&*self);
        }
        let ghost before = texts(self.items@);
        let ghost t = s@;
        let mut items: Vec<String> = Vec::new();
        std::mem::swap(&mut items, &mut self.items);
        items.push(s);
        proof {
            assert(texts(items@) =~= before.push(t));
            push_grows(before, t);
            assert(!before.contains(t));
            assert(before.push(t).no_duplicates());
        }
        self.items = items;
        true
    }

    /// Takes a text out of the set, and says whether it was there.
    pub fn remove(&mut self, s: &str) -> (b: bool)
        ensures
            b == old(self)@.contains(s@),
            final(self)@ == old(self)@.remove(s@),
    {
        if !self.contains(s) {
            assert(self@ =~= self@.remove(s@));
            return false;
        }
        proof {
            use_type_invariant(&*self);
        }
        let mut left: Vec<String> = Vec::new();
        let ghost all = texts(self.items@);
        let mut i: usize = 0;
        assert(texts(left@).to_set() =~= all.subrange(0, 0).to_set().remove(s@));
        while i < self.items.len()
            invariant
                i <= self.items.len(),
                all == texts(self.items@),
                self.items@ == old(self).items@,
                all.no_duplicates(),
                texts(left@).no_duplicates(),
                texts(left@).to_set() == all.subrange(0, i as int).to_set().remove(s@),
            decreases self.items.len() - i,
        {
            let ghost before = texts(left@);
            let ghost t = self.items@[i as int]@;
            proof {
                subrange_grows(all, i as int);
                assert(all[i as int] == t);
            }
            if !str_eq(self.items[i].as_str(), s) {
                left.push(self.items[i].clone());
                proof {
                    assert(texts(left@) =~= before.push(t));
                    push_grows(before, t);
                    if before.contains(t) {
                        assert(before.to_set().contains(t));
                        let k = choose|k: int| 0 <= k < i && all.subrange(0, i as int)[k] == t;
                        assert(all[k] == all[i as int]);
                    }
                    assert(before.push(t).no_duplicates());
                }
            }
            assert(texts(left@).to_set() =~= all.subrange(0, i + 1).to_set().remove(s@));
            i += 1;
        }
        assert(all.subrange(0, all.len() as int) =~= all);
        self.items = left;
        true
    }

    /// The number of texts in the set.
    pub fn len(&self) -> (n: usize)
        ensures
            n == self@.len(),
            self@.finite(),
    {
        proof {
            use_type_invariant(self);
            texts(self.items@).unique_seq_to_set();
        }
        self.items.len()
    }

    /// Whether the set is empty.
    pub fn is_empty(&self) -> (b: bool)
        ensures
            b <==> self@ == Set::<Seq<char>>::empty(),
    {
        if self.items.len() == 0 {
            assert(self@ =~= Set::<Seq<char>>::empty());
            true
        } else {
            assert(texts(self.items@).contains(texts(self.items@)[0]));
            assert(self@.contains(texts(self.items@)[0]));
            false
        }
    }

    /// The texts in order, together with those of another set.
    pub fn sorted_with(&self, other: &NameSet) -> (v: Vec<String>)
        ensures
            ascending(texts(v@)),
            texts(v@).to_set() == self@.union(other@),
    {
        let mut v: Vec<String> = Vec::new();
        self.add_sorted(&mut v);
        other.add_sorted(&mut v);
        assert(texts(v@).to_set() =~= self@.union(other@));
        v
    }

    /// The texts in order.
    pub fn sorted(&self) -> (v: Vec<String>)
        ensures
            ascending(texts(v@)),
            texts(v@).to_set() == self@,
    {
        let mut v: Vec<String> = Vec::new();
        self.add_sorted(&mut v);
        assert(texts(v@).to_set() =~= self@);
        v
    }

    /// Puts the texts into a row of ascending texts.
    fn add_sorted(&self, v: &mut Vec<String>)
        requires
            ascending(texts(old(v)@)),
        ensures
            ascending(texts(final(v)@)),
            texts(final(v)@).to_set() == texts(old(v)@).to_set().union(self@),
    {
        let ghost start = texts(v@).to_set();
        let mut i: usize = 0;
        assert(start =~= start.union(texts(self.items@).subrange(0, 0).to_set()));
        while i < self.items.len()
            invariant
                i <= self.items.len(),
                ascending(texts(v@)),
                start == texts(old(v)@).to_set(),
                texts(v@).to_set() == start.union(
                    texts(self.items@).subrange(0, i as int).to_set(),
                ),
            decreases self.items.len() - i,
        {
            insert_sorted(v, &self.items[i]);
            proof {
                let all = texts(self.items@);
                let some = all.subrange(0, i as int);
                let more = all.subrange(0, i + 1);
                assert(all[i as int] == self.items@[i as int]@);
                subrange_grows(all, i as int);
                assert(start.union(more.to_set()) =~= start.union(some.to_set()).insert(
                    all[i as int],
                ));
            }
            i += 1;
        }
        assert(texts(self.items@).subrange(0, self.items@.len() as int) =~= texts(self.items@));
    }
}

impl NameSet {
    /// The room of each text, which is no less than it holds.
    pub(crate) fn rooms(&self) -> (v: Vec<usize>)
        ensures
            fits(v@, byte_lens(self.row())),
            self.row().no_duplicates(),
            self.row().to_set() == self@,
    {
        proof {
            use_type_invariant(self);
        }
        let mut v: Vec<usize> = Vec::new();
        let mut i: usize = 0;
        while i < self.items.len()
            invariant
                i <= self.items.len(),
                v@.len() == i,
                forall|j: int| 0 <= j < i ==> #[trigger] v@[j] >= byte_lens(self.row())[j],
            decreases self.items.len() - i,
        {
            assert(self.row()[i as int] == self.items@[i as int]@);
            v.push(self.items[i].capacity());
            i += 1;
        }
        v
    }

    /// An estimate of the memory that the set takes: for each text a place in a
    /// table and its room, or the largest number. How much more room a text has
    /// than it needs is up to the allocator.
    pub fn heap_bytes(&self) -> (n: usize)
        ensures
            exists|names: Seq<Seq<char>>, rooms: Seq<usize>|
                names.no_duplicates() && names.to_set() == self@ && #[trigger] room_of(
                    n,
                    place_bytes(),
                    byte_lens(names),
                    rooms,
                ),
    {
        let rooms = self.rooms();
        let n: usize = table_room(&rooms);
        proof {
            rooms_hold(rooms@, byte_lens(self.row()));
        }
        assert(room_of(n, place_bytes(), byte_lens(self.row()), rooms@));
        n
    }
}

} // verus!
