//! Contiguous index ranges inside a rule map.
use vstd::prelude::*;

use crate::error::Error;
use crate::number;
use crate::text;

verus! {

/// Hands out contiguous index ranges of one rule map, and takes them back.
#[derive(Debug)]
pub struct RuleAllocator {
    /// The map's name, for messages.
    pub what: &'static str,
    /// The free ranges as `(base, len)`, sorted by base.
    pub free: Vec<(u32, u32)>,
}

/// The index behind a range.
pub open spec fn end_of(range: (u32, u32)) -> int {
    range.0 + range.1
}

/// Whether `x` lies in one of the ranges.
pub open spec fn covers(free: Seq<(u32, u32)>, x: int) -> bool {
    exists|i: int| 0 <= i < free.len() && (#[trigger] free[i]).0 <= x < end_of(free[i])
}

/// Whether no range reaches past the index space.
pub open spec fn fits(free: Seq<(u32, u32)>) -> bool {
    forall|i: int| 0 <= i < free.len() ==> end_of(#[trigger] free[i]) <= u32::MAX
}

/// Whether the ranges are not empty and stand in order, without overlap.
pub open spec fn in_order(free: Seq<(u32, u32)>) -> bool {
    &&& fits(free)
    &&& forall|i: int| 0 <= i < free.len() ==> (#[trigger] free[i]).1 > 0
    &&& forall|i: int, j: int| 0 <= i < j < free.len() ==> end_of(#[trigger] free[i]) <= (#[trigger] free[j]).0
}

/// Whether no two of the first `n` ranges touch.
pub open spec fn apart(free: Seq<(u32, u32)>, n: int) -> bool {
    forall|i: int, j: int|
        0 <= i < j < free.len() && j < n ==> end_of(#[trigger] free[i]) < (#[trigger] free[j]).0
}

/// Whether the list is the canonical one for the indices that it covers: in order, no range
/// empty, no two ranges touching.
pub open spec fn coalesced(free: Seq<(u32, u32)>) -> bool {
    in_order(free) && apart(free, free.len() as int)
}

/// The position of the first range of at least `count` indices, or the number of ranges.
pub open spec fn first_fit(free: Seq<(u32, u32)>, count: u32) -> int
    decreases free.len(),
{
    if free.len() == 0 {
        0
    } else if free[0].1 >= count {
        0
    } else {
        1 + first_fit(free.skip(1), count)
    }
}

/// The free ranges after the first `count` indices of range `pos` are taken.
pub open spec fn carved(free: Seq<(u32, u32)>, pos: int, count: u32) -> Seq<(u32, u32)> {
    if free[pos].1 == count {
        free.remove(pos)
    } else {
        free.update(pos, ((free[pos].0 + count) as u32, (free[pos].1 - count) as u32))
    }
}

proof fn first_fit_is(free: Seq<(u32, u32)>, count: u32, k: int)
    requires
        0 <= k <= free.len(),
        forall|i: int| 0 <= i < k ==> (#[trigger] free[i]).1 < count,
        k < free.len() ==> free[k].1 >= count,
    ensures
        first_fit(free, count) == k,
    decreases k,
{
    if k > 0 {
        let rest = free.skip(1);
        assert(free[0].1 < count);
        assert forall|i: int| 0 <= i < k - 1 implies (#[trigger] rest[i]).1 < count by {
            assert(rest[i] == free[i + 1]);
        }
        first_fit_is(rest, count, k - 1);
    }
}

/// Taking the first indices of a range takes them out of what is covered, and leaves a canonical
/// list canonical.
pub proof fn carving(free: Seq<(u32, u32)>, pos: int, count: u32)
    requires
        coalesced(free),
        0 <= pos < free.len(),
        0 < count <= free[pos].1,
    ensures
        coalesced(carved(free, pos, count)),
        forall|x: int|
            #![trigger covers(carved(free, pos, count), x)]
            covers(carved(free, pos, count), x) <==> covers(free, x) && !(free[pos].0 <= x < free[pos].0 + count),
        forall|x: int| free[pos].0 <= x < free[pos].0 + count ==> covers(free, x),
{
    let after = carved(free, pos, count);
    let whole = free[pos].1 == count;
    assert(end_of(free[pos]) <= u32::MAX);
    if whole {
        assert forall|i: int| 0 <= i < after.len() implies #[trigger] after[i] == free[if i < pos {
            i
        } else {
            i + 1
        }] by {}
    }
    assert forall|x: int|
        covers(after, x) implies covers(free, x) && !(free[pos].0 <= x < free[pos].0 + count) by {
        let i = choose|i: int| 0 <= i < after.len() && (#[trigger] after[i]).0 <= x < end_of(after[i]);
        if whole {
            let k = if i < pos {
                i
            } else {
                i + 1
            };
            assert(after[i] == free[k]);
            assert(free[k].0 <= x < end_of(free[k]));
        } else {
            assert(free[i].0 <= x < end_of(free[i]));
        }
    }
    assert forall|x: int|
        covers(free, x) && !(free[pos].0 <= x < free[pos].0 + count) implies covers(after, x) by {
        let i = choose|i: int| 0 <= i < free.len() && (#[trigger] free[i]).0 <= x < end_of(free[i]);
        if whole {
            let k = if i < pos {
                i
            } else {
                i - 1
            };
            assert(i != pos);
            assert(after[k] == free[i]);
        } else {
            assert(after[i].0 <= x < end_of(after[i]));
        }
    }
    assert forall|x: int| free[pos].0 <= x < free[pos].0 + count implies covers(free, x) by {
        assert(free[pos].0 <= x < end_of(free[pos]));
    }
}

impl RuleAllocator {
    /// What an allocation that finds no room is answered.
    pub open spec fn no_room(&self, count: u32) -> Seq<char> {
        self.what@ + " map has no free range of "@ + number::decimal(count as nat)
            + " entries (fragmented or full)"@
    }

    /// An allocator over the indices below `capacity`.
    pub fn new(what: &'static str, capacity: u32) -> (r: Self)
        ensures
            r.what == what,
            r.free@ == seq![(0u32, capacity)],
            fits(r.free@),
            capacity > 0 ==> coalesced(r.free@),
            forall|x: int| covers(r.free@, x) <==> 0 <= x < capacity,
    {
        let mut free: Vec<(u32, u32)> = Vec::new();
        free.push((0, capacity));
        proof {
            assert(free@ =~= seq![(0u32, capacity)]);
            assert forall|x: int| covers(free@, x) <==> 0 <= x < capacity by {
                if 0 <= x < capacity {
                    assert(free@[0].0 <= x < end_of(free@[0]));
                }
            }
        }
        RuleAllocator { what, free }
    }

    /// Takes `count` contiguous indices, the first that are free together. Taking none succeeds
    /// and changes nothing.
    pub fn allocate(&mut self, count: u32) -> (r: Result<u32, Error>)
        requires
            fits(old(self).free@),
        ensures
            final(self).what == old(self).what,
            fits(final(self).free@),
            count == 0 ==> r == Ok::<u32, Error>(0u32) && final(self).free@ == old(self).free@,
            count > 0 ==> (r is Ok <==> first_fit(old(self).free@, count) < old(self).free@.len()),
            count > 0 && r is Ok ==> ({
                let pos = first_fit(old(self).free@, count);
                &&& 0 <= pos < old(self).free@.len()
                &&& old(self).free@[pos].1 >= count
                &&& r->Ok_0 == old(self).free@[pos].0
                &&& final(self).free@ == carved(old(self).free@, pos, count)
            }),
            r matches Err(e) ==> (e matches Error::PolicyInvalid(m) && m@ == old(self).no_room(count)),
            r is Err ==> final(self).free@ == old(self).free@,
            coalesced(old(self).free@) ==> coalesced(final(self).free@),
    {
        if count == 0 {
            return Ok(0);
        }
        let ghost before = self.free@;
        let n: usize = self.free.len();
        let mut pos: usize = 0;
        while pos < n && self.free[pos].1 < count
            invariant
                pos <= n,
                n == self.free@.len(),
                self.free@ == before,
                forall|i: int| 0 <= i < pos ==> (#[trigger] before[i]).1 < count,
            decreases n - pos,
        {
            pos = pos + 1;
        }
        proof {
            first_fit_is(before, count, pos as int);
        }
        if pos == n {
            let mut m = text::cat3(self.what, " map has no free range of ", number::format_u64(count as u64).as_str());
            m.append(" entries (fragmented or full)");
            return Err(Error::PolicyInvalid(m));
        }
        let (base, len) = self.free[pos];
        proof {
            assert(end_of(before[pos as int]) <= u32::MAX);
            if coalesced(before) {
                carving(before, pos as int, count);
            }
        }
        if len == count {
            self.free.remove(pos);
        } else {
            self.free.set(pos, (base + count, len - count));
        }
        proof {
            assert(self.free@ =~= carved(before, pos as int, count));
            assert forall|i: int| 0 <= i < self.free@.len() implies end_of(#[trigger] self.free@[i]) <= u32::MAX by {
                if len == count && i >= pos {
                    assert(self.free@[i] == before[i + 1]);
                } else {
                    assert(end_of(before[i]) <= u32::MAX);
                }
            }
        }
        Ok(base)
    }

    /// Gives a range back, and joins it with the free ranges that it touches.
    pub fn release(&mut self, base: u32, count: u32)
        requires
            count > 0 ==> coalesced(old(self).free@) && base + count <= u32::MAX && forall|x: int|
                base <= x < base + count ==> !covers(old(self).free@, x),
        ensures
            final(self).what == old(self).what,
            count == 0 ==> final(self).free@ == old(self).free@,
            count > 0 ==> coalesced(final(self).free@),
            count > 0 ==> forall|x: int|
                #![trigger covers(final(self).free@, x)]
                covers(final(self).free@, x) <==> covers(old(self).free@, x) || base <= x < base + count,
    {
        if count == 0 {
            return;
        }
        let ghost before = self.free@;
        let n: usize = self.free.len();
        let mut pos: usize = 0;
        while pos < n && self.free[pos].0 < base
            invariant
                pos <= n,
                n == self.free@.len(),
                self.free@ == before,
                forall|i: int| 0 <= i < pos ==> (#[trigger] before[i]).0 < base,
            decreases n - pos,
        {
            pos = pos + 1;
        }
        self.free.insert(pos, (base, count));
        proof {
            inserting(before, pos as int, base, count);
            assert(self.free@ =~= before.insert(pos as int, (base, count)));
        }
        let ghost wanted = self.free@;
        let mut i: usize = 0;
        while i < self.free.len() - 1
            invariant
                self.what == old(self).what,
                in_order(self.free@),
                apart(self.free@, i + 1),
                i < self.free@.len(),
                forall|x: int|
                    #![trigger covers(self.free@, x)]
                    covers(self.free@, x) <==> covers(wanted, x),
            decreases self.free@.len() - i,
        {
            let (b, l) = self.free[i];
            let (nb, nl) = self.free[i + 1];
            let ghost at = self.free@;
            proof {
                assert(end_of(at[i as int]) <= u32::MAX);
                assert(end_of(at[i + 1]) <= u32::MAX);
            }
            if b + l == nb {
                self.free.set(i, (b, l + nl));
                self.free.remove(i + 1);
                proof {
                    merging(at, i as int);
                    assert(self.free@ =~= at.update(i as int, (b, (l + nl) as u32)).remove(i + 1));
                }
            } else {
                proof {
                    assert(end_of(at[i as int]) <= at[i + 1].0);
                    assert forall|a: int, c: int| 0 <= a < c < at.len() && c < i + 2 implies end_of(#[trigger] at[a])
                        < (#[trigger] at[c]).0 by {
                        if c == i + 1 && a < i {
                            assert(end_of(at[a]) < at[i as int].0);
                            assert(at[i as int].1 > 0);
                            assert(end_of(at[i as int]) <= at[i + 1].0);
                        }
                    }
                }
                i = i + 1;
            }
        }
    }
}

/// Putting a range in its place keeps the ranges in order, and adds its indices.
proof fn inserting(free: Seq<(u32, u32)>, pos: int, base: u32, count: u32)
    requires
        coalesced(free),
        0 <= pos <= free.len(),
        count > 0,
        base + count <= u32::MAX,
        forall|i: int| 0 <= i < pos ==> (#[trigger] free[i]).0 < base,
        pos < free.len() ==> free[pos].0 >= base,
        forall|x: int| base <= x < base + count ==> !covers(free, x),
    ensures
        in_order(free.insert(pos, (base, count))),
        forall|x: int|
            #![trigger covers(free.insert(pos, (base, count)), x)]
            covers(free.insert(pos, (base, count)), x) <==> covers(free, x) || base <= x < base + count,
{
    let after = free.insert(pos, (base, count));
    let range = (base, count);
    assert forall|i: int| 0 <= i < after.len() implies #[trigger] after[i] == (if i < pos {
        free[i]
    } else if i == pos {
        range
    } else {
        free[i - 1]
    }) by {}
    assert forall|i: int| 0 <= i < pos implies end_of(#[trigger] free[i]) <= base by {
        if end_of(free[i]) > base {
            assert(free[i].0 <= base < end_of(free[i]));
            assert(covers(free, base as int));
        }
    }
    assert forall|i: int| pos <= i < free.len() implies base + count <= (#[trigger] free[i]).0 by {
        if i > pos {
            assert(end_of(free[pos]) <= free[i].0);
        }
        assert(free[i].1 > 0);
        if free[i].0 < base + count {
            assert(free[i].0 <= free[i].0 < end_of(free[i]));
            assert(covers(free, free[i].0 as int));
        }
    }
    assert forall|i: int, j: int| 0 <= i < j < after.len() implies end_of(#[trigger] after[i]) <= (
    #[trigger] after[j]).0 by {
        if i < pos && j > pos {
            assert(end_of(free[i]) < free[j - 1].0);
        } else if i < pos && j < pos {
            assert(end_of(free[i]) < free[j].0);
        } else if i > pos {
            assert(end_of(free[i - 1]) < free[j - 1].0);
        }
    }
    assert forall|i: int| 0 <= i < after.len() implies (#[trigger] after[i]).1 > 0 && end_of(after[i])
        <= u32::MAX by {
        if i < pos {
            assert(free[i].1 > 0);
            assert(end_of(free[i]) <= u32::MAX);
        } else if i > pos {
            assert(free[i - 1].1 > 0);
            assert(end_of(free[i - 1]) <= u32::MAX);
        }
    }
    assert forall|x: int|
        #![trigger covers(after, x)]
        covers(after, x) <==> covers(free, x) || base <= x < base + count by {
        if covers(after, x) {
            let i = choose|i: int| 0 <= i < after.len() && (#[trigger] after[i]).0 <= x < end_of(after[i]);
            if i < pos {
                assert(free[i].0 <= x < end_of(free[i]));
            } else if i > pos {
                assert(free[i - 1].0 <= x < end_of(free[i - 1]));
            }
        }
        if covers(free, x) {
            let i = choose|i: int| 0 <= i < free.len() && (#[trigger] free[i]).0 <= x < end_of(free[i]);
            if i < pos {
                assert(after[i].0 <= x < end_of(after[i]));
            } else {
                assert(after[i + 1].0 <= x < end_of(after[i + 1]));
            }
        }
        if base <= x < base + count {
            assert(after[pos].0 <= x < end_of(after[pos]));
        }
    }
}

/// Two ranges that touch can be written as one.
proof fn merging(free: Seq<(u32, u32)>, i: int)
    requires
        in_order(free),
        apart(free, i + 1),
        0 <= i < free.len() - 1,
        end_of(free[i]) == free[i + 1].0,
    ensures
        ({
            let after = free.update(i, (free[i].0, (free[i].1 + free[i + 1].1) as u32)).remove(i + 1);
            &&& in_order(after)
            &&& apart(after, i + 1)
            &&& forall|x: int| #![trigger covers(after, x)] covers(after, x) <==> covers(free, x)
        }),
{
    let joint = (free[i].0, (free[i].1 + free[i + 1].1) as u32);
    let after = free.update(i, joint).remove(i + 1);
    assert(end_of(free[i + 1]) <= u32::MAX);
    assert(end_of(joint) == end_of(free[i + 1]));
    assert forall|k: int| 0 <= k < after.len() implies #[trigger] after[k] == (if k < i {
        free[k]
    } else if k == i {
        joint
    } else {
        free[k + 1]
    }) by {}
    assert forall|k: int| 0 <= k < after.len() implies (#[trigger] after[k]).1 > 0 && end_of(after[k])
        <= u32::MAX by {
        if k < i {
            assert(free[k].1 > 0 && end_of(free[k]) <= u32::MAX);
        } else if k > i {
            assert(free[k + 1].1 > 0 && end_of(free[k + 1]) <= u32::MAX);
        } else {
            assert(free[i].1 > 0);
        }
    }
    assert forall|a: int, c: int| 0 <= a < c < after.len() implies end_of(#[trigger] after[a]) <= (
    #[trigger] after[c]).0 by {
        let fa = if a < i {
            a
        } else {
            a + 1
        };
        let fc = if c <= i {
            c
        } else {
            c + 1
        };
        assert(end_of(free[fa]) <= free[fc].0);
    }
    assert forall|a: int, c: int| 0 <= a < c < after.len() && c < i + 1 implies end_of(#[trigger] after[a]) < (
    #[trigger] after[c]).0 by {
        assert(end_of(free[a]) < free[c].0);
    }
    assert forall|x: int| #![trigger covers(after, x)] covers(after, x) <==> covers(free, x) by {
        if covers(after, x) {
            let k = choose|k: int| 0 <= k < after.len() && (#[trigger] after[k]).0 <= x < end_of(after[k]);
            if k < i {
                assert(free[k].0 <= x < end_of(free[k]));
            } else if k > i {
                assert(free[k + 1].0 <= x < end_of(free[k + 1]));
            } else if x < end_of(free[i]) {
                assert(free[i].0 <= x < end_of(free[i]));
            } else {
                assert(free[i + 1].0 <= x < end_of(free[i + 1]));
            }
        }
        if covers(free, x) {
            let k = choose|k: int| 0 <= k < free.len() && (#[trigger] free[k]).0 <= x < end_of(free[k]);
            if k <= i {
                assert(after[k].0 <= x < end_of(after[k]));
            } else {
                assert(after[k - 1].0 <= x < end_of(after[k - 1]));
            }
        }
    }
}

/// What the canonical list covers besides its first range is what the rest of it covers.
proof fn rest_of(free: Seq<(u32, u32)>)
    requires
        coalesced(free),
        free.len() > 0,
    ensures
        coalesced(free.skip(1)),
        !covers(free, end_of(free[0])),
        forall|x: int|
            #![trigger covers(free.skip(1), x)]
            covers(free.skip(1), x) <==> covers(free, x) && x >= end_of(free[0]),
{
    let rest = free.skip(1);
    assert forall|i: int| 0 <= i < rest.len() implies #[trigger] rest[i] == free[i + 1] by {}
    assert forall|i: int, j: int| 0 <= i < j < rest.len() implies end_of(#[trigger] rest[i]) < (
    #[trigger] rest[j]).0 by {
        assert(end_of(free[i + 1]) < free[j + 1].0);
    }
    assert forall|i: int| 0 <= i < rest.len() implies (#[trigger] rest[i]).1 > 0 && end_of(rest[i])
        <= u32::MAX by {
        assert(free[i + 1].1 > 0 && end_of(free[i + 1]) <= u32::MAX);
    }
    assert forall|x: int|
        #![trigger covers(rest, x)]
        covers(rest, x) <==> covers(free, x) && x >= end_of(free[0]) by {
        if covers(rest, x) {
            let i = choose|i: int| 0 <= i < rest.len() && (#[trigger] rest[i]).0 <= x < end_of(rest[i]);
            assert(free[i + 1].0 <= x < end_of(free[i + 1]));
            assert(end_of(free[0]) < free[i + 1].0);
        }
        if covers(free, x) && x >= end_of(free[0]) {
            let i = choose|i: int| 0 <= i < free.len() && (#[trigger] free[i]).0 <= x < end_of(free[i]);
            assert(i > 0);
            assert(rest[i - 1].0 <= x < end_of(rest[i - 1]));
        }
    }
    if covers(free, end_of(free[0])) {
        let i = choose|i: int|
            0 <= i < free.len() && (#[trigger] free[i]).0 <= end_of(free[0]) < end_of(free[i]);
        if i > 0 {
            assert(end_of(free[0]) < free[i].0);
        }
    }
}

/// The canonical list is determined by the indices that it covers.
pub proof fn coalesced_unique(a: Seq<(u32, u32)>, b: Seq<(u32, u32)>)
    requires
        coalesced(a),
        coalesced(b),
        forall|x: int| #![trigger covers(a, x)] #![trigger covers(b, x)] covers(a, x) <==> covers(b, x),
    ensures
        a == b,
    decreases a.len(),
{
    if a.len() == 0 {
        if b.len() > 0 {
            assert(b[0].1 > 0);
            assert(b[0].0 <= b[0].0 < end_of(b[0]));
            assert(covers(b, b[0].0 as int));
            assert(!covers(a, b[0].0 as int));
        }
        assert(a =~= b);
    } else {
        first_is_least(a, b);
        first_is_least(b, a);
        rest_of(a);
        rest_of(b);
        let ea = end_of(a[0]);
        let eb = end_of(b[0]);
        if ea < eb {
            assert(b[0].0 <= ea < end_of(b[0]));
            assert(covers(b, ea));
            assert(covers(a, ea));
        } else if eb < ea {
            assert(a[0].0 <= eb < end_of(a[0]));
            assert(covers(a, eb));
            assert(covers(b, eb));
        }
        assert(a[0] == b[0]);
        assert forall|x: int|
            #![trigger covers(a.skip(1), x)]
            #![trigger covers(b.skip(1), x)]
            covers(a.skip(1), x) <==> covers(b.skip(1), x) by {
            assert(covers(a, x) <==> covers(b, x));
        }
        coalesced_unique(a.skip(1), b.skip(1));
        assert(a =~= seq![a[0]] + a.skip(1));
        assert(b =~= seq![b[0]] + b.skip(1));
    }
}

proof fn first_is_least(a: Seq<(u32, u32)>, b: Seq<(u32, u32)>)
    requires
        coalesced(a),
        coalesced(b),
        a.len() > 0,
        forall|x: int| #![trigger covers(a, x)] #![trigger covers(b, x)] covers(a, x) <==> covers(b, x),
    ensures
        b.len() > 0,
        b[0].0 <= a[0].0,
{
    assert(a[0].1 > 0);
    let x = a[0].0 as int;
    assert(a[0].0 <= x < end_of(a[0]));
    assert(covers(a, x));
    assert(covers(b, x));
    let j = choose|j: int| 0 <= j < b.len() && (#[trigger] b[j]).0 <= x < end_of(b[j]);
    if j > 0 {
        assert(end_of(b[0]) < b[j].0);
    }
}

/// Giving back what was taken restores the list of free ranges exactly, so that no number of
/// takings and givings-back can use up or fragment the map.
pub proof fn release_undoes_allocation(
    free: Seq<(u32, u32)>,
    count: u32,
    after: Seq<(u32, u32)>,
)
    requires
        coalesced(free),
        count > 0,
        0 <= first_fit(free, count) < free.len(),
        free[first_fit(free, count)].1 >= count,
        coalesced(after),
        forall|x: int|
            #![trigger covers(after, x)]
            covers(after, x) <==> covers(carved(free, first_fit(free, count), count), x) || free[first_fit(
                free,
                count,
            )].0 <= x < free[first_fit(free, count)].0 + count,
    ensures
        after == free,
{
    let pos = first_fit(free, count);
    carving(free, pos, count);
    assert forall|x: int|
        #![trigger covers(after, x)]
        #![trigger covers(free, x)]
        covers(after, x) <==> covers(free, x) by {
        assert(covers(after, x) <==> covers(carved(free, pos, count), x) || free[pos].0 <= x < free[pos].0
            + count);
        assert(covers(carved(free, pos, count), x) <==> covers(free, x) && !(free[pos].0 <= x < free[pos].0
            + count));
    }
    coalesced_unique(after, free);
}

} // verus!
