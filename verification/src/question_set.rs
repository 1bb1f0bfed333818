//! Sets of questions.
use vstd::prelude::*;

use crate::question::QueryType;
use crate::text::str_eq;

verus! {

/// A name and a type.
pub type KeyView = (Seq<char>, QueryType);

/// The name and the type of each entry.
pub open spec fn keys(v: Seq<(String, QueryType)>) -> Seq<KeyView> {
    v.map_values(|k: (String, QueryType)| (k.0@, k.1))
}

/// A set of questions.
#[derive(Debug)]
pub struct QuestionSet {
    pub items: Vec<(String, QueryType)>,
}

impl View for QuestionSet {
    type V = Set<KeyView>;

    open spec fn view(&self) -> Set<KeyView> {
        keys(self.items@).to_set()
    }
}

/// A set of what stands in a sequence grows with it.
pub proof fn push_key(s: Seq<KeyView>, t: KeyView)
    ensures
        s.push(t).to_set() == s.to_set().insert(t),
{
    let p = s.push(t);
    assert forall|x: KeyView| #[trigger] p.contains(x) <==> (s.contains(x) || x == t) by {
        if s.contains(x) {
            let k = choose|k: int| 0 <= k < s.len() && s[k] == x;
            assert(p[k] == x);
        }
        if x == t {
            assert(p[s.len() as int] == x);
        }
    }
    assert(p.to_set() =~= s.to_set().insert(t));
}

impl QuestionSet {
    /// Whether no question stands twice.
    pub open spec fn wf(&self) -> bool {
        keys(self.items@).no_duplicates()
    }

    /// The empty set.
    pub fn new() -> (r: Self)
        ensures
            r.wf(),
            r@ == Set::<KeyView>::empty(),
    {
        let r = QuestionSet { items: Vec::new() };
        assert(r@ =~= Set::<KeyView>::empty());
        r
    }

    /// Where a question is held.
    fn find(&self, name: &str, qtype: QueryType) -> (r: Option<usize>)
        ensures
            match r {
                Some(i) => i < self.items@.len() && keys(self.items@)[i as int] == (name@, qtype),
                None => !keys(self.items@).contains((name@, qtype)),
            },
    {
        let mut i: usize = 0;
        while i < self.items.len()
            invariant
                i <= self.items.len(),
                forall|j: int| 0 <= j < i ==> (#[trigger] keys(self.items@)[j]) != (name@, qtype),
            decreases self.items.len() - i,
        {
            if self.items[i].1 == qtype && str_eq(self.items[i].0.as_str(), name) {
                return Some(i);
            }
            i += 1;
        }
        None
    }

    /// Whether a question is in the set.
    pub fn contains(&self, name: &str, qtype: QueryType) -> (b: bool)
        ensures
            b == self@.contains((name@, qtype)),
    {
        match self.find(name, qtype) {
            Some(i) => {
                assert(keys(self.items@).contains(keys(self.items@)[i as int]));
                true
            },
            None => false,
        }
    }

    /// Puts a question into the set, and says whether it was not there before.
    pub fn insert(&mut self, name: &str, qtype: QueryType) -> (b: bool)
        requires
            old(self).wf(),
        ensures
            final(self).wf(),
            b == !old(self)@.contains((name@, qtype)),
            final(self)@ == old(self)@.insert((name@, qtype)),
    {
        if self.contains(name, qtype) {
            assert(self@ =~= self@.insert((name@, qtype)));
            return false;
        }
        let ghost before = keys(self.items@);
        let item = name.to_owned();
        self.items.push((item, qtype));
        proof {
            assert(keys(self.items@) =~= before.push((name@, qtype)));
            push_key(before, (name@, qtype));
        }
        true
    }

    /// Takes a question out of the set, and says whether it was there.
    pub fn remove(&mut self, name: &str, qtype: QueryType) -> (b: bool)
        requires
            old(self).wf(),
        ensures
            final(self).wf(),
            b == old(self)@.contains((name@, qtype)),
            final(self)@ == old(self)@.remove((name@, qtype)),
    {
        let ghost all = keys(self.items@);
        match self.find(name, qtype) {
            None => {
                assert(self@ =~= self@.remove((name@, qtype)));
                false
            },
            Some(i) => {
                let _gone = self.items.remove(i);
                proof {
                    let left = keys(self.items@);
                    assert(left =~= all.remove(i as int));
                    assert(all.contains(all[i as int]));
                    assert forall|x: KeyView| #[trigger] left.contains(x) <==> (all.contains(x) && x != (
                        name@,
                        qtype,
                    )) by {
                        if left.contains(x) {
                            let k = choose|k: int| 0 <= k < left.len() && left[k] == x;
                            let m = if k < i {
                                k
                            } else {
                                k + 1
                            };
                            assert(all[m] == x);
                        }
                        if all.contains(x) && x != (name@, qtype) {
                            let k = choose|k: int| 0 <= k < all.len() && all[k] == x;
                            let m = if k < i {
                                k
                            } else {
                                k - 1
                            };
                            assert(left[m] == x);
                        }
                    }
                    assert(left.to_set() =~= all.to_set().remove((name@, qtype)));
                }
                true
            },
        }
    }

    /// The number of questions in the set.
    pub fn len(&self) -> (n: usize)
        requires
            self.wf(),
        ensures
            n == self@.len(),
            self@.finite(),
    {
        proof {
            keys(self.items@).unique_seq_to_set();
        }
        self.items.len()
    }

    /// Whether the set is empty.
    pub fn is_empty(&self) -> (b: bool)
        ensures
            b <==> self@ == Set::<KeyView>::empty(),
    {
        if self.items.len() == 0 {
            assert(self@ =~= Set::<KeyView>::empty());
            true
        } else {
            assert(keys(self.items@).contains(keys(self.items@)[0]));
            assert(self@.contains(keys(self.items@)[0]));
            false
        }
    }
}

} // verus!
