//! The pool of memory-slot identifiers that were given back and wait to be
//! used again.
//!
//! The kernel sizes its tables by the largest slot identifier it has seen, so
//! the pool always hands out the smallest identifier it holds: under churn the
//! identifiers in use stay dense.

use vstd::prelude::*;

verus! {

/// Whether `slot` is in `pool` and no member of `pool` is smaller.
pub open spec fn is_smallest(pool: Set<u32>, slot: u32) -> bool {
    &&& pool.contains(slot)
    &&& forall|other: u32| pool.contains(other) ==> slot <= other
}

/// Whether the slot identifiers handed out so far are dense: with the first
/// `base` identifiers taken by the fixed regions, the identifiers that are
/// active or free are exactly the next ones in a row, as many as there are
/// active and free ones together; none is both active and free; and all fit
/// in 32 bits.
#[verifier::opaque]
pub open spec fn slots_dense(base: nat, active: Set<u32>, free: Set<u32>) -> bool {
    &&& active.finite()
    &&& free.finite()
    &&& base + active.len() + free.len() <= 0x1_0000_0000
    &&& forall|id: u32| active.contains(id) ==> !free.contains(id)
    &&& forall|id: u32|
        #![trigger active.contains(id)]
        #![trigger free.contains(id)]
        (active.contains(id) || free.contains(id)) <==> base <= id < base + active.len()
            + free.len()
}

/// The identifier that the next registration gets: the smallest free one, or,
/// where none is free, the next one that was never used, which is the number
/// of fixed regions plus the number of active slots. The result is past the
/// 32-bit range where every identifier is in use.
pub open spec fn next_slot(base: nat, active: Set<u32>, free: Set<u32>) -> int {
    if free == Set::<u32>::empty() {
        (base + active.len()) as int
    } else {
        (choose|slot: u32| is_smallest(free, slot)) as int
    }
}

/// Whether `slot` is the smallest identifier that is neither taken by one of
/// the `base` fixed regions nor active.
pub open spec fn is_smallest_inactive(base: nat, active: Set<u32>, slot: int) -> bool {
    &&& base <= slot
    &&& forall|id: u32| id == slot ==> !active.contains(id)
    &&& forall|id: u32| base <= id < slot ==> active.contains(id)
}

/// A set of identifiers that is not empty has a smallest member.
pub proof fn lemma_smallest_exists(pool: Set<u32>, member: u32)
    requires
        pool.contains(member),
    ensures
        exists|slot: u32| is_smallest(pool, slot),
    decreases member,
{
    if exists|other: u32| pool.contains(other) && other < member {
        let other = choose|other: u32| pool.contains(other) && other < member;
        lemma_smallest_exists(pool, other);
    } else {
        assert(is_smallest(pool, member));
    }
}

/// The smallest member of a set of identifiers is unique.
pub proof fn lemma_smallest_unique(pool: Set<u32>, a: u32, b: u32)
    requires
        is_smallest(pool, a),
        is_smallest(pool, b),
    ensures
        a == b,
{
}

/// Where a slot of the pool is the smallest, it is what [`next_slot`] names.
pub proof fn lemma_next_slot_is_smallest_free(
    base: nat,
    active: Set<u32>,
    free: Set<u32>,
    slot: u32,
)
    requires
        is_smallest(free, slot),
    ensures
        next_slot(base, active, free) == slot,
{
    assert(free.contains(slot));
    assert(free != Set::<u32>::empty());
    let chosen = choose|s: u32| is_smallest(free, s);
    lemma_smallest_unique(free, chosen, slot);
}

/// While the identifiers are dense, the next registration gets the smallest
/// identifier that is not active.
pub proof fn lemma_next_slot_is_smallest_inactive(base: nat, active: Set<u32>, free: Set<u32>)
    requires
        slots_dense(base, active, free),
    ensures
        is_smallest_inactive(base, active, next_slot(base, active, free)),
        next_slot(base, active, free) <= base + active.len() + free.len(),
        free != Set::<u32>::empty() ==> next_slot(base, active, free) < base + active.len()
            + free.len() && free.contains(next_slot(base, active, free) as u32),
{
    reveal(slots_dense);
    let slot = next_slot(base, active, free);
    if free == Set::<u32>::empty() {
        assert(free.len() == 0);
        assert forall|id: u32| base <= id < slot implies active.contains(id) by {
            assert(active.contains(id) || free.contains(id));
        }
        assert forall|id: u32| id == slot implies !active.contains(id) by {
            if active.contains(id) {
                assert(id < base + active.len() + free.len());
            }
        }
    } else {
        let member = choose|id: u32| free.contains(id);
        assert(free.contains(member)) by {
            if forall|id: u32| !free.contains(id) {
                assert(free =~= Set::<u32>::empty());
            }
        }
        lemma_smallest_exists(free, member);
        let smallest = choose|s: u32| is_smallest(free, s);
        assert(slot == smallest);
        assert(free.contains(smallest));
        assert forall|id: u32| base <= id < slot implies active.contains(id) by {
            assert(id < base + active.len() + free.len());
            assert(active.contains(id) || free.contains(id));
            if free.contains(id) {
                assert(smallest <= id);
            }
        }
    }
}

/// Making the slot of the next registration active keeps the identifiers
/// dense.
pub proof fn lemma_slot_taken(base: nat, active: Set<u32>, free: Set<u32>, slot: u32)
    requires
        slots_dense(base, active, free),
        slot == next_slot(base, active, free),
    ensures
        !active.contains(slot),
        slots_dense(base, active.insert(slot), free.remove(slot)),
{
    reveal(slots_dense);
    lemma_next_slot_is_smallest_inactive(base, active, free);
    assert(!active.contains(slot));
    let active2 = active.insert(slot);
    let free2 = free.remove(slot);
    if free.contains(slot) {
        assert(active2.len() + free2.len() == active.len() + free.len());
        assert forall|id: u32|
            #![trigger active2.contains(id)]
            #![trigger free2.contains(id)]
            (active2.contains(id) || free2.contains(id)) <==> base <= id < base + active2.len()
                + free2.len() by {
            assert((active.contains(id) || free.contains(id)) <==> (active2.contains(id)
                || free2.contains(id)));
        }
    } else {
        assert(free == Set::<u32>::empty());
        assert(free2 =~= free);
        assert(slot == base + active.len() + free.len());
        assert(active2.len() + free2.len() == active.len() + free.len() + 1);
        assert forall|id: u32|
            #![trigger active2.contains(id)]
            #![trigger free2.contains(id)]
            (active2.contains(id) || free2.contains(id)) <==> base <= id < base + active2.len()
                + free2.len() by {
            assert((active.contains(id) || free.contains(id)) <==> base <= id < base
                + active.len() + free.len());
        }
    }
}

/// Putting the slot of the next registration into the pool instead keeps
/// the identifiers dense, and leaves it the slot of the next registration.
pub proof fn lemma_slot_returned(base: nat, active: Set<u32>, free: Set<u32>, slot: u32)
    requires
        slots_dense(base, active, free),
        slot == next_slot(base, active, free),
    ensures
        slots_dense(base, active, free.insert(slot)),
        next_slot(base, active, free.insert(slot)) == slot,
{
    reveal(slots_dense);
    lemma_next_slot_is_smallest_inactive(base, active, free);
    assert(!active.contains(slot));
    let free2 = free.insert(slot);
    if free.contains(slot) {
        assert(free2 =~= free);
    } else {
        assert(free == Set::<u32>::empty());
        assert(slot == base + active.len() + free.len());
        assert(free2.len() == free.len() + 1);
        assert forall|id: u32|
            #![trigger active.contains(id)]
            #![trigger free2.contains(id)]
            (active.contains(id) || free2.contains(id)) <==> base <= id < base + active.len()
                + free2.len() by {
            assert((active.contains(id) || free.contains(id)) <==> base <= id < base
                + active.len() + free.len());
        }
        assert(is_smallest(free2, slot));
        lemma_next_slot_is_smallest_free(base, active, free2, slot);
    }
}

/// Giving a slot back keeps the identifiers dense, and the next registration
/// then uses an identifier that was handed out before, none above the one
/// given back, rather than a new one. Where nothing else was free, it is the
/// very slot that was given back.
pub proof fn lemma_freed_slot_is_reused(base: nat, active: Set<u32>, free: Set<u32>, slot: u32)
    requires
        slots_dense(base, active, free),
        active.contains(slot),
    ensures
        slots_dense(base, active.remove(slot), free.insert(slot)),
        next_slot(base, active.remove(slot), free.insert(slot)) <= slot,
        next_slot(base, active.remove(slot), free.insert(slot)) < base + active.len()
            + free.len(),
        free.insert(slot).contains(next_slot(base, active.remove(slot), free.insert(slot)) as u32),
        free == Set::<u32>::empty() ==> next_slot(base, active.remove(slot), free.insert(slot))
            == slot,
{
    reveal(slots_dense);
    let active2 = active.remove(slot);
    let free2 = free.insert(slot);
    assert(!free.contains(slot));
    assert(active2.len() + free2.len() == active.len() + free.len());
    assert forall|id: u32|
        #![trigger active2.contains(id)]
        #![trigger free2.contains(id)]
        (active2.contains(id) || free2.contains(id)) <==> base <= id < base + active2.len()
            + free2.len() by {
        assert((active.contains(id) || free.contains(id)) <==> (active2.contains(id)
            || free2.contains(id)));
    }
    assert(slots_dense(base, active2, free2));
    assert(free2.contains(slot));
    assert(free2 != Set::<u32>::empty());
    lemma_next_slot_is_smallest_inactive(base, active2, free2);
    lemma_smallest_exists(free2, slot);
    let smallest = choose|s: u32| is_smallest(free2, s);
    assert(smallest <= slot);
    if free == Set::<u32>::empty() {
        assert(free2.contains(smallest));
        assert(smallest == slot);
    }
}

/// Free slot identifiers, each held once, the smallest handed out first.
#[derive(Debug, PartialEq, Eq)]
pub struct SlotPool {
    /// In strictly descending order: the smallest identifier is the last.
    gaps: Vec<u32>,
}

impl View for SlotPool {
    type V = Set<u32>;

    closed spec fn view(&self) -> Set<u32> {
        self.gaps@.to_set()
    }
}

impl SlotPool {
    /// The invariant of the type.
    pub closed spec fn wf(&self) -> bool {
        forall|i: int, j: int| 0 <= i < j < self.gaps@.len() ==> self.gaps@[i] > self.gaps@[j]
    }

    /// The pool is a finite set, as large as the number of identifiers held.
    pub proof fn lemma_finite(&self)
        requires
            self.wf(),
        ensures
            self@.finite(),
            self@.len() == self.spec_len(),
    {
        self.gaps@.unique_seq_to_set();
        vstd::seq_lib::seq_to_set_is_finite(self.gaps@);
    }

    /// The number of identifiers in the pool.
    pub closed spec fn spec_len(&self) -> nat {
        self.gaps@.len()
    }

    /// An empty pool.
    pub fn new() -> (pool: SlotPool)
        ensures
            pool.wf(),
            pool@ == Set::<u32>::empty(),
    {
        let pool = SlotPool { gaps: Vec::new() };
        assert(pool@ =~= Set::<u32>::empty());
        pool
    }

    /// The number of identifiers in the pool.
    pub fn len(&self) -> (n: usize)
        requires
            self.wf(),
        ensures
            n == self@.len(),
    {
        proof {
            self.lemma_finite();
        }
        self.gaps.len()
    }

    /// Whether the pool holds no identifier.
    pub fn is_empty(&self) -> (empty: bool)
        requires
            self.wf(),
        ensures
            empty == (self@ == Set::<u32>::empty()),
    {
        proof {
            if self.gaps@.len() > 0 {
                assert(self.gaps@.contains(self.gaps@[0]));
                assert(self@.contains(self.gaps@[0]));
            } else {
                assert(self@ =~= Set::<u32>::empty());
            }
        }
        self.gaps.len() == 0
    }

    /// Whether `slot` is in the pool.
    pub fn contains(&self, slot: u32) -> (found: bool)
        requires
            self.wf(),
        ensures
            found == self@.contains(slot),
    {
        let mut i: usize = 0;
        while i < self.gaps.len()
            invariant
                0 <= i <= self.gaps.len(),
                forall|k: int| 0 <= k < i ==> self.gaps@[k] != slot,
            decreases self.gaps.len() - i,
        {
            if self.gaps[i] == slot {
                assert(self.gaps@.contains(slot));
                return true;
            }
            i += 1;
        }
        false
    }

    /// The identifier that [`SlotPool::allocate_next`] would hand out of the
    /// pool: the smallest one, if there is any.
    pub fn peek(&self) -> (next: Option<u32>)
        requires
            self.wf(),
        ensures
            match next {
                Some(slot) => is_smallest(self@, slot),
                None => self@ == Set::<u32>::empty(),
            },
    {
        let n = self.gaps.len();
        if n == 0 {
            assert(self@ =~= Set::<u32>::empty());
            None
        } else {
            let slot = self.gaps[n - 1];
            proof {
                assert(self.gaps@.contains(slot));
                assert forall|other: u32| self@.contains(other) implies slot <= other by {
                    let k = choose|k: int| 0 <= k < self.gaps@.len() && self.gaps@[k] == other;
                    if k < n - 1 {
                        assert(self.gaps@[k] > self.gaps@[n - 1]);
                    }
                }
            }
            Some(slot)
        }
    }

    /// Hands out a slot identifier: the smallest one in the pool, which
    /// leaves the pool; or, where the pool is empty, `count_hint`, the next
    /// identifier that was never used.
    pub fn allocate_next(&mut self, count_hint: u32) -> (slot: u32)
        requires
            old(self).wf(),
        ensures
            final(self).wf(),
            old(self)@ == Set::<u32>::empty() ==> slot == count_hint && final(self)@ == old(
                self,
            )@,
            old(self)@ != Set::<u32>::empty() ==> is_smallest(old(self)@, slot) && final(self)@
                == old(self)@.remove(slot),
    {
        let next = self.peek();
        match next {
            None => count_hint,
            Some(smallest) => {
                let ghost before = self.gaps@;
                let popped = self.gaps.pop();
                proof {
                    let after = self.gaps@;
                    assert(after =~= before.drop_last());
                    assert(before.last() == smallest) by {
                        let k = choose|k: int| 0 <= k < before.len() && before[k] == smallest;
                        assert(before[before.len() - 1] == before.last());
                        assert(before.contains(before.last()));
                        assert(old(self)@.contains(before.last()));
                        if k < before.len() - 1 {
                            assert(before[k] > before[before.len() - 1]);
                        }
                    }
                    assert(before.contains(smallest));
                    assert(old(self)@ != Set::<u32>::empty()) by {
                        assert(old(self)@.contains(smallest));
                    }
                    assert forall|id: u32| after.to_set().contains(id) <==> before.to_set().remove(
                        smallest,
                    ).contains(id) by {
                        if after.contains(id) {
                            let k = choose|k: int| 0 <= k < after.len() && after[k] == id;
                            assert(before[k] == id);
                            assert(before[k] > before[before.len() - 1]);
                        }
                        if before.contains(id) && id != smallest {
                            let k = choose|k: int| 0 <= k < before.len() && before[k] == id;
                            assert(after[k] == id);
                        }
                    }
                    assert(self@ =~= old(self)@.remove(smallest));
                }
                smallest
            },
        }
    }

    /// Puts `slot` into the pool. An identifier that is in the pool already
    /// is not held twice.
    pub fn release(&mut self, slot: u32)
        requires
            old(self).wf(),
        ensures
            final(self).wf(),
            final(self)@ == old(self)@.insert(slot),
    {
        let ghost before = self.gaps@;
        let mut i: usize = 0;
        while i < self.gaps.len() && self.gaps[i] > slot
            invariant
                self.gaps@ == before,
                0 <= i <= self.gaps.len(),
                forall|k: int| 0 <= k < i ==> before[k] > slot,
            decreases self.gaps.len() - i,
        {
            i += 1;
        }
        if i < self.gaps.len() && self.gaps[i] == slot {
            proof {
                assert(before.contains(slot));
                assert(self@ =~= old(self)@.insert(slot));
            }
        } else {
            self.gaps.insert(i, slot);
            proof {
                let after = self.gaps@;
                assert(after =~= before.insert(i as int, slot));
                assert forall|a: int, b: int| 0 <= a < b < after.len() implies after[a]
                    > after[b] by {
                    if a < i && b > i {
                        assert(after[a] == before[a]);
                        assert(after[b] == before[b - 1]);
                        if b - 1 > i {
                            assert(before[i as int] > before[b - 1]);
                        }
                    } else if a < i && b < i {
                    } else if a < i && b == i {
                    } else if a == i {
                        assert(after[b] == before[b - 1]);
                        if b - 1 > i {
                            assert(before[i as int] > before[b - 1]);
                        }
                    } else {
                        assert(after[a] == before[a - 1]);
                        assert(after[b] == before[b - 1]);
                    }
                }
                assert forall|id: u32| after.to_set().contains(id) <==> before.to_set().insert(
                    slot,
                ).contains(id) by {
                    if after.contains(id) {
                        let k = choose|k: int| 0 <= k < after.len() && after[k] == id;
                        if k < i {
                            assert(before[k] == id);
                        } else if k > i {
                            assert(before[k - 1] == id);
                        }
                    }
                    if before.contains(id) {
                        let k = choose|k: int| 0 <= k < before.len() && before[k] == id;
                        if k < i {
                            assert(after[k] == id);
                        } else {
                            assert(after[k + 1] == id);
                        }
                    }
                    if id == slot {
                        assert(after[i as int] == id);
                    }
                }
                assert(self@ =~= old(self)@.insert(slot));
            }
        }
    }
}

} // verus!
