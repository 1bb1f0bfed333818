//! Estimates of the memory that data takes.
use vstd::layout::size_of;
use vstd::prelude::*;

use crate::text::{at_most_max, byte_len};

verus! {

/// The sum of the room of some texts or byte strings, in bytes.
pub open spec fn sum(rooms: Seq<usize>) -> nat
    decreases rooms.len(),
{
    if rooms.len() == 0 {
        0
    } else {
        sum(rooms.drop_last()) + rooms.last() as nat
    }
}

/// The sum of what some texts or byte strings hold, in bytes.
pub open spec fn total(held: Seq<nat>) -> nat
    decreases held.len(),
{
    if held.len() == 0 {
        0
    } else {
        total(held.drop_last()) + held.last()
    }
}

/// Whether each room is no less than what is held in it.
pub open spec fn fits(rooms: Seq<usize>, held: Seq<nat>) -> bool {
    rooms.len() == held.len() && forall|i: int|
        0 <= i < held.len() ==> #[trigger] rooms[i] >= held[i]
}

/// What some texts hold, in bytes.
pub open spec fn byte_lens(names: Seq<Seq<char>>) -> Seq<nat> {
    names.map_values(|s: Seq<char>| byte_len(s))
}

/// The bytes of a place in a table of texts, beside what the text holds.
pub open spec fn place_bytes() -> nat {
    9 + size_of::<String>()
}

/// Rooms sum up to no less than what is held in them.
pub proof fn rooms_hold(rooms: Seq<usize>, held: Seq<nat>)
    requires
        fits(rooms, held),
    ensures
        sum(rooms) >= total(held),
    decreases rooms.len(),
{
    if rooms.len() > 0 {
        let n = rooms.len() - 1;
        assert(rooms[n] >= held[n]);
        assert forall|i: int| 0 <= i < n implies #[trigger] rooms.drop_last()[i]
            >= held.drop_last()[i] by {
            assert(rooms[i] >= held[i]);
        }
        rooms_hold(rooms.drop_last(), held.drop_last());
    }
}

/// The sum of rooms, or the largest number.
pub fn room_sum(rooms: &Vec<usize>) -> (n: usize)
    ensures
        n == at_most_max(sum(rooms@)),
{
    let mut n: usize = 0;
    let mut i: usize = 0;
    assert(rooms@.subrange(0, 0) =~= Seq::<usize>::empty());
    while i < rooms.len()
        invariant
            i <= rooms.len(),
            n == at_most_max(sum(rooms@.subrange(0, i as int))),
        decreases rooms.len() - i,
    {
        proof {
            let more = rooms@.subrange(0, i + 1);
            assert(more.drop_last() =~= rooms@.subrange(0, i as int));
            assert(more.last() == rooms@[i as int]);
        }
        n = n.saturating_add(rooms[i]);
        i += 1;
    }
    assert(rooms@.subrange(0, rooms@.len() as int) =~= rooms@);
    n
}

/// The sum of rooms and of a number of bytes for each, or the largest number.
pub fn room_sum_with(each: usize, rooms: &Vec<usize>) -> (n: usize)
    ensures
        n == at_most_max(rooms@.len() * each as nat + sum(rooms@)),
{
    let fixed: usize = match rooms.len().checked_mul(each) {
        Some(x) => x,
        None => usize::MAX,
    };
    fixed.saturating_add(room_sum(rooms))
}

/// The memory of a table of texts with these rooms, or the largest number.
pub fn table_room(rooms: &Vec<usize>) -> (n: usize)
    ensures
        n == at_most_max(rooms@.len() * place_bytes() + sum(rooms@)),
{
    let each: usize = core::mem::size_of::<String>().saturating_add(9);
    let n: usize = room_sum_with(each, rooms);
    proof {
        let len = rooms@.len();
        let place = place_bytes();
        if place > usize::MAX {
            let max = usize::MAX as nat;
            if len >= 1 {
                assert(len * place >= place && len * max >= max) by (nonlinear_arith)
                    requires
                        len >= 1,
                        place >= 0,
                        max >= 0,
                ;
            } else {
                assert(len * place == 0 && len * max == 0);
            }
        }
    }
    n
}

/// Whether a number is the memory of texts or byte strings that hold so much,
/// each with some room that is no less and with a number of bytes beside it. The
/// number is then no less than those bytes and what is held.
pub open spec fn room_of(n: usize, each: nat, held: Seq<nat>, rooms: Seq<usize>) -> bool {
    &&& fits(rooms, held)
    &&& n == at_most_max(held.len() * each + sum(rooms))
    &&& n >= at_most_max(held.len() * each + total(held))
}

} // verus!
