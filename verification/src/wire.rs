//! What can be read off a message without decoding its records.
use vstd::prelude::*;

use crate::buffer::{at16, at32};

verus! {

/// Where the name that starts at `p` ends: after its zero byte, or after the
/// two bytes that point elsewhere.
pub open spec fn name_skip(w: Seq<u8>, p: int) -> Option<int>
    decreases w.len() - p,
{
    if p < 0 || p >= w.len() {
        None
    } else if w[p] == 0 {
        Some(p + 1)
    } else if w[p] >= 0xc0 {
        if p + 2 <= w.len() {
            Some(p + 2)
        } else {
            None
        }
    } else if p + 1 + w[p] < w.len() {
        name_skip(w, p + 1 + w[p])
    } else {
        None
    }
}

/// Where the name that starts at `p` ends.
fn skip_name(w: &[u8], p: usize) -> (r: Option<usize>)
    ensures
        match r {
            Some(e) => name_skip(w@, p as int) == Some(e as int) && p < e <= w@.len(),
            None => name_skip(w@, p as int) is None,
        },
{
    let mut q: usize = p;
    while q < w.len()
        invariant
            p <= q,
            name_skip(w@, p as int) == name_skip(w@, q as int),
        decreases w.len() - q,
    {
        if w[q] == 0 {
            return Some(q + 1);
        }
        if w[q] >= 0xc0 {
            if w.len() - q >= 2 {
                return Some(q + 2);
            }
            return None;
        }
        let step: usize = w[q] as usize + 1;
        if step >= w.len() - q {
            return None;
        }
        q += step;
    }
    None
}

/// Where `n` questions that start at `p` end.
pub open spec fn questions_skip(w: Seq<u8>, p: int, n: nat) -> Option<int>
    decreases n,
{
    if n == 0 {
        Some(p)
    } else {
        match name_skip(w, p) {
            Some(e) => if e + 4 <= w.len() {
                questions_skip(w, e + 4, (n - 1) as nat)
            } else {
                None
            },
            None => None,
        }
    }
}

/// The times to live of `n` records that start at `p`.
pub open spec fn ttls_at(w: Seq<u8>, p: int, n: nat) -> Option<Seq<u32>>
    decreases n,
{
    if n == 0 {
        Some(Seq::empty())
    } else {
        match name_skip(w, p) {
            Some(e) => if e + 10 <= w.len() && e + 10 + at16(w, e + 8) <= w.len() {
                match ttls_at(w, e + 10 + at16(w, e + 8), (n - 1) as nat) {
                    Some(rest) => Some(seq![at32(w, e + 4)] + rest),
                    None => None,
                }
            } else {
                None
            },
            None => None,
        }
    }
}

/// The smallest of some numbers, or 0 where there are none.
pub open spec fn least(s: Seq<u32>) -> u32
    decreases s.len(),
{
    if s.len() == 0 {
        0
    } else if s.len() == 1 {
        s[0]
    } else {
        let rest = least(s.drop_first());
        if s[0] < rest {
            s[0]
        } else {
            rest
        }
    }
}

/// The times to live of the answers of a message.
pub open spec fn answer_ttls(w: Seq<u8>) -> Option<Seq<u32>> {
    if w.len() < 12 {
        None
    } else {
        match questions_skip(w, 12, at16(w, 4) as nat) {
            Some(p) => ttls_at(w, p, at16(w, 6) as nat),
            None => None,
        }
    }
}

fn read16(w: &[u8], p: usize) -> (n: u16)
    requires
        p + 2 <= w@.len(),
    ensures
        n == at16(w@, p as int),
{
    w[p] as u16 * 256 + w[p + 1] as u16
}

fn read32(w: &[u8], p: usize) -> (n: u32)
    requires
        p + 4 <= w@.len(),
    ensures
        n == at32(w@, p as int),
{
    w[p] as u32 * 16777216 + w[p + 1] as u32 * 65536 + w[p + 2] as u32 * 256 + w[p + 3] as u32
}

/// Where `n` questions that start at `p` end.
fn skip_questions(w: &[u8], p: usize, n: u16) -> (r: Option<usize>)
    requires
        p <= w@.len(),
    ensures
        match r {
            Some(e) => questions_skip(w@, p as int, n as nat) == Some(e as int) && e <= w@.len(),
            None => questions_skip(w@, p as int, n as nat) is None,
        },
{
    let mut q: usize = p;
    let mut left: u16 = n;
    while left > 0
        invariant
            q <= w@.len(),
            questions_skip(w@, p as int, n as nat) == questions_skip(w@, q as int, left as nat),
        decreases left,
    {
        match skip_name(w, q) {
            Some(e) => {
                if w.len() - e < 4 {
                    return None;
                }
                q = e + 4;
            },
            None => {
                return None;
            },
        }
        left -= 1;
    }
    Some(q)
}

/// The times to live of the answers of a message.
pub fn scan_ttls(w: &[u8]) -> (r: Option<Vec<u32>>)
    ensures
        match r {
            Some(v) => answer_ttls(w@) == Some(v@),
            None => answer_ttls(w@) is None,
        },
{
    if w.len() < 12 {
        return None;
    }
    let start: usize = match skip_questions(w, 12, read16(w, 4)) {
        Some(p) => p,
        None => {
            return None;
        },
    };
    let n: u16 = read16(w, 6);
    let mut v: Vec<u32> = Vec::new();
    let mut q: usize = start;
    let mut left: u16 = n;
    proof {
        if let Some(rest) = ttls_at(w@, start as int, n as nat) {
            assert(v@ + rest =~= rest);
        }
    }
    while left > 0
        invariant
            q <= w@.len(),
            answer_ttls(w@) == ttls_at(w@, start as int, n as nat),
            match ttls_at(w@, q as int, left as nat) {
                Some(rest) => ttls_at(w@, start as int, n as nat) == Some(v@ + rest),
                None => ttls_at(w@, start as int, n as nat) is None,
            },
        decreases left,
    {
        let ghost before = v@;
        match skip_name(w, q) {
            Some(e) => {
                if w.len() - e < 10 {
                    return None;
                }
                let size: usize = read16(w, e + 8) as usize;
                if w.len() - e - 10 < size {
                    return None;
                }
                v.push(read32(w, e + 4));
                q = e + 10 + size;
                proof {
                    if let Some(rest) = ttls_at(w@, q as int, (left - 1) as nat) {
                        assert(before + (seq![at32(w@, e + 4)] + rest) =~= v@ + rest);
                    }
                }
            },
            None => {
                return None;
            },
        }
        left -= 1;
    }
    assert(v@ + Seq::<u32>::empty() =~= v@);
    Some(v)
}

/// The smallest of some numbers, or 0 where there are none.
pub fn smallest(v: &Vec<u32>) -> (n: u32)
    ensures
        n == least(v@),
{
    if v.len() == 0 {
        return 0;
    }
    let mut i: usize = v.len() - 1;
    let mut m: u32 = v[i];
    assert(v@.subrange(i as int, v@.len() as int) =~= seq![v@[i as int]]);
    while i > 0
        invariant
            i < v@.len(),
            m == least(v@.subrange(i as int, v@.len() as int)),
        decreases i,
    {
        i -= 1;
        proof {
            let s = v@.subrange(i as int, v@.len() as int);
            assert(s.drop_first() =~= v@.subrange(i + 1, v@.len() as int));
            assert(s.len() >= 2);
        }
        if v[i] < m {
            m = v[i];
        }
    }
    assert(v@.subrange(0, v@.len() as int) =~= v@);
    m
}

/// The smallest number is one of them, and none is smaller.
pub proof fn least_is_least(s: Seq<u32>)
    requires
        s.len() > 0,
    ensures
        s.contains(least(s)),
        forall|i: int| 0 <= i < s.len() ==> least(s) <= #[trigger] s[i],
    decreases s.len(),
{
    if s.len() == 1 {
        assert(s[0] == least(s));
    } else {
        let rest = s.drop_first();
        least_is_least(rest);
        let k = choose|k: int| 0 <= k < rest.len() && rest[k] == least(rest);
        assert(s[k + 1] == least(rest));
        assert forall|i: int| 0 <= i < s.len() implies least(s) <= #[trigger] s[i] by {
            if i > 0 {
                assert(rest[i - 1] == s[i]);
            }
        }
        if s[0] < least(rest) {
            assert(s[0] == least(s));
        }
    }
}

} // verus!
