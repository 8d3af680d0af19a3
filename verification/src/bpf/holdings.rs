//! Which sandbox holds which indices of a rule map.
use vstd::prelude::*;

use crate::bpf::ranges;

verus! {

/// Whether `x` lies in a range.
pub open spec fn inside(range: (u32, u32), x: int) -> bool {
    range.0 <= x < range.0 + range.1
}

/// Whether the free ranges and the held ones fit together: the free list is canonical, nothing
/// reaches past the map's capacity, no index is both free and held, and no two sandboxes hold
/// the same index.
pub open spec fn sound(free: Seq<(u32, u32)>, capacity: int, held: Map<u64, (u32, u32)>) -> bool {
    &&& ranges::coalesced(free)
    &&& forall|x: int| #[trigger] ranges::covers(free, x) ==> 0 <= x < capacity
    &&& forall|k: u64| #[trigger] held.dom().contains(k) ==> held[k].0 + held[k].1 <= capacity
    &&& forall|k: u64, x: int|
        held.dom().contains(k) && #[trigger] inside(held[k], x) ==> !ranges::covers(free, x)
    &&& forall|j: u64, k: u64, x: int|
        held.dom().contains(j) && held.dom().contains(k) && j != k && #[trigger] inside(held[j], x)
            ==> !(#[trigger] inside(held[k], x))
}

/// Whether a range is neither free nor held: taken, and not yet given to a sandbox.
pub open spec fn spare(free: Seq<(u32, u32)>, capacity: int, held: Map<u64, (u32, u32)>, range: (u32, u32)) -> bool {
    &&& range.0 + range.1 <= capacity
    &&& forall|x: int| inside(range, x) ==> !(#[trigger] ranges::covers(free, x))
    &&& forall|k: u64, x: int| held.dom().contains(k) && #[trigger] inside(held[k], x) ==> !inside(range, x)
}

/// Whether `after` and `range` are what taking `count` indices from `before` gives.
pub open spec fn taken(before: Seq<(u32, u32)>, after: Seq<(u32, u32)>, range: (u32, u32)) -> bool {
    let count = range.1;
    let pos = ranges::first_fit(before, count);
    if count == 0 {
        after == before && range.0 == 0
    } else {
        &&& 0 <= pos < before.len()
        &&& before[pos].1 >= count
        &&& range.0 == before[pos].0
        &&& after == ranges::carved(before, pos, count)
    }
}

/// Whether `after` is `before` with a range given back.
pub open spec fn given_back(before: Seq<(u32, u32)>, after: Seq<(u32, u32)>, range: (u32, u32)) -> bool {
    if range.1 == 0 {
        after == before
    } else {
        &&& ranges::coalesced(after)
        &&& forall|x: int|
            #![trigger ranges::covers(after, x)]
            ranges::covers(after, x) <==> ranges::covers(before, x) || range.0 <= x < range.0 + range.1
    }
}

/// Taking indices keeps everything sound, and what was taken is spare.
pub proof fn taking_keeps_sound(
    before: Seq<(u32, u32)>,
    after: Seq<(u32, u32)>,
    capacity: int,
    held: Map<u64, (u32, u32)>,
    range: (u32, u32),
)
    requires
        sound(before, capacity, held),
        taken(before, after, range),
        capacity <= u32::MAX,
        capacity >= 0,
    ensures
        sound(after, capacity, held),
        spare(after, capacity, held, range),
{
    let count = range.1;
    if count > 0 {
        let pos = ranges::first_fit(before, count);
        ranges::carving(before, pos, count);
        let last = range.0 + count - 1;
        assert(ranges::covers(before, last));
        assert forall|x: int| #[trigger] ranges::covers(after, x) implies 0 <= x < capacity by {
            assert(ranges::covers(before, x));
        }
        assert forall|k: u64, x: int| held.dom().contains(k) && #[trigger] inside(held[k], x) implies !inside(
            range,
            x,
        ) by {
            if inside(range, x) {
                assert(ranges::covers(before, x));
            }
        }
    }
}

/// Giving a spare range back keeps everything sound.
pub proof fn giving_back_keeps_sound(
    before: Seq<(u32, u32)>,
    after: Seq<(u32, u32)>,
    capacity: int,
    held: Map<u64, (u32, u32)>,
    range: (u32, u32),
)
    requires
        sound(before, capacity, held),
        spare(before, capacity, held, range),
        given_back(before, after, range),
    ensures
        sound(after, capacity, held),
{
    if range.1 > 0 {
        assert forall|k: u64, x: int| held.dom().contains(k) && #[trigger] inside(held[k], x) implies !ranges::covers(
            after,
            x,
        ) by {
            assert(!inside(range, x));
            assert(!ranges::covers(before, x));
        }
        assert forall|x: int| #[trigger] ranges::covers(after, x) implies 0 <= x < capacity by {
            if !inside(range, x) {
                assert(ranges::covers(before, x));
            }
        }
    }
}

/// Giving back what was just taken restores the free list.
pub proof fn giving_back_undoes_taking(
    before: Seq<(u32, u32)>,
    middle: Seq<(u32, u32)>,
    after: Seq<(u32, u32)>,
    range: (u32, u32),
)
    requires
        ranges::coalesced(before),
        taken(before, middle, range),
        given_back(middle, after, range),
    ensures
        after == before,
{
    if range.1 > 0 {
        ranges::release_undoes_allocation(before, range.1, after);
    }
}

/// A spare range given to a sandbox in place of the one that it held: everything stays sound, and
/// the one that it held is spare.
pub proof fn exchange_keeps_sound(
    free: Seq<(u32, u32)>,
    capacity: int,
    held: Map<u64, (u32, u32)>,
    k: u64,
    range: (u32, u32),
)
    requires
        sound(free, capacity, held),
        spare(free, capacity, held, range),
        held.dom().contains(k),
    ensures
        sound(free, capacity, held.insert(k, range)),
        spare(free, capacity, held.insert(k, range), held[k]),
{
    let next = held.insert(k, range);
    assert forall|i: u64, j: u64, x: int|
        next.dom().contains(i) && next.dom().contains(j) && i != j && #[trigger] inside(next[i], x) implies !(
    #[trigger] inside(next[j], x)) by {
        if i == k {
            if inside(next[j], x) {
                assert(inside(held[j], x));
            }
        } else if j == k {
            assert(inside(held[i], x));
        } else {
            assert(inside(held[i], x));
            if inside(next[j], x) {
                assert(inside(held[j], x));
            }
        }
    }
    assert forall|i: u64, x: int| next.dom().contains(i) && #[trigger] inside(next[i], x) implies !inside(
        held[k],
        x,
    ) by {
        if i == k {
            if inside(held[k], x) {
                assert(!inside(range, x));
            }
        } else {
            assert(inside(held[i], x));
            if inside(held[k], x) {
                assert(!inside(held[i], x));
            }
        }
    }
    assert forall|i: u64, x: int| next.dom().contains(i) && #[trigger] inside(next[i], x) implies !ranges::covers(
        free,
        x,
    ) by {
        if i != k {
            assert(inside(held[i], x));
        }
    }
    assert forall|x: int| inside(held[k], x) implies !(#[trigger] ranges::covers(free, x)) by {}
    assert forall|i: u64| #[trigger] next.dom().contains(i) implies next[i].0 + next[i].1 <= capacity by {
        if i != k {
            assert(held.dom().contains(i));
        }
    }
}

/// A sandbox that leaves: everything stays sound, and what it held is spare.
pub proof fn leaving_keeps_sound(free: Seq<(u32, u32)>, capacity: int, held: Map<u64, (u32, u32)>, k: u64)
    requires
        sound(free, capacity, held),
        held.dom().contains(k),
    ensures
        sound(free, capacity, held.remove(k)),
        spare(free, capacity, held.remove(k), held[k]),
{
    let next = held.remove(k);
    assert forall|i: u64, x: int| next.dom().contains(i) && #[trigger] inside(next[i], x) implies !inside(
        held[k],
        x,
    ) && !ranges::covers(free, x) by {
        assert(inside(held[i], x));
        if inside(held[k], x) {
            assert(!inside(held[i], x));
        }
    }
    assert forall|i: u64, j: u64, x: int|
        next.dom().contains(i) && next.dom().contains(j) && i != j && #[trigger] inside(next[i], x) implies !(
    #[trigger] inside(next[j], x)) by {
        assert(inside(held[i], x));
        if inside(next[j], x) {
            assert(inside(held[j], x));
        }
    }
    assert forall|i: u64| #[trigger] next.dom().contains(i) implies next[i].0 + next[i].1 <= capacity by {
        assert(held.dom().contains(i));
    }
    assert forall|x: int| inside(held[k], x) implies !(#[trigger] ranges::covers(free, x)) by {}
}

/// A sandbox that comes with nothing: everything stays sound.
pub proof fn joining_keeps_sound(free: Seq<(u32, u32)>, capacity: int, held: Map<u64, (u32, u32)>, k: u64)
    requires
        sound(free, capacity, held),
        !held.dom().contains(k),
        capacity >= 0,
    ensures
        sound(free, capacity, held.insert(k, (0u32, 0u32))),
{
    let next = held.insert(k, (0u32, 0u32));
    assert forall|i: u64, x: int| next.dom().contains(i) && #[trigger] inside(next[i], x) implies !ranges::covers(
        free,
        x,
    ) by {
        assert(i != k);
        assert(inside(held[i], x));
    }
    assert forall|i: u64, j: u64, x: int|
        next.dom().contains(i) && next.dom().contains(j) && i != j && #[trigger] inside(next[i], x) implies !(
    #[trigger] inside(next[j], x)) by {
        assert(i != k);
        assert(inside(held[i], x));
        if inside(next[j], x) {
            assert(inside(held[j], x));
        }
    }
    assert forall|i: u64| #[trigger] next.dom().contains(i) implies next[i].0 + next[i].1 <= capacity by {
        if i != k {
            assert(held.dom().contains(i));
        }
    }
}

} // verus!
