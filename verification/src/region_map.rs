//! The registrations that are live: which slot backs which range of guest
//! memory, and the mapping that each slot keeps alive.

use std::collections::BTreeMap;
use vstd::prelude::*;
use crate::guest_memory::MemoryRegion;

verus! {

broadcast use {
    vstd::std_specs::btree::group_btree_axioms,
    vstd::laws_cmp::group_laws_cmp,
};

/// One registration: the region of guest memory, and the mapping that backs
/// it, which is owned for as long as the registration lasts.
#[derive(Debug, PartialEq, Eq)]
pub struct Registration<M> {
    region: MemoryRegion,
    mapping: M,
}

/// The live registrations, keyed by slot identifier.
#[derive(Debug, PartialEq, Eq)]
pub struct RegionMap<M> {
    regions: BTreeMap<u32, Registration<M>>,
}

impl<M> View for RegionMap<M> {
    type V = Map<u32, MemoryRegion>;

    /// The regions by slot.
    closed spec fn view(&self) -> Map<u32, MemoryRegion> {
        Map::new(
            |slot: u32| self.regions@.contains_key(slot),
            |slot: u32| self.regions@[slot].region,
        )
    }
}

impl<M> RegionMap<M> {
    /// The mappings by slot.
    pub closed spec fn mappings(&self) -> Map<u32, M> {
        Map::new(
            |slot: u32| self.regions@.contains_key(slot),
            |slot: u32| self.regions@[slot].mapping,
        )
    }

    /// The slots with a region are those with a mapping, and they are
    /// finitely many.
    pub proof fn lemma_slots(&self)
        ensures
            self@.dom() == self.mappings().dom(),
            self@.dom().finite(),
    {
        assert(self@.dom() =~= self.regions@.dom());
        assert(self.mappings().dom() =~= self.regions@.dom());
    }

    /// A map without registrations.
    pub fn new() -> (map: RegionMap<M>)
        ensures
            map@ == Map::<u32, MemoryRegion>::empty(),
            map.mappings() == Map::<u32, M>::empty(),
    {
        let map = RegionMap { regions: BTreeMap::new() };
        assert(map@ =~= Map::<u32, MemoryRegion>::empty());
        assert(map.mappings() =~= Map::<u32, M>::empty());
        map
    }

    /// The number of registrations.
    pub fn len(&self) -> (n: usize)
        ensures
            n == self@.len(),
    {
        assert(self@.dom() =~= self.regions@.dom());
        self.regions.len()
    }

    /// Whether `slot` is registered.
    pub fn contains_key(&self, slot: u32) -> (found: bool)
        ensures
            found == self@.contains_key(slot),
    {
        self.regions.contains_key(&slot)
    }

    /// The region registered under `slot`, if any.
    pub fn get(&self, slot: u32) -> (region: Option<MemoryRegion>)
        ensures
            region == (if self@.contains_key(slot) {
                Some(self@[slot])
            } else {
                None::<MemoryRegion>
            }),
    {
        match self.regions.get(&slot) {
            Some(registration) => Some(registration.region),
            None => None,
        }
    }

    /// Registers `region` under `slot` and takes `mapping` into ownership.
    /// What was registered under `slot` before is let go.
    pub fn insert(&mut self, slot: u32, region: MemoryRegion, mapping: M)
        ensures
            final(self)@ == old(self)@.insert(slot, region),
            final(self).mappings() == old(self).mappings().insert(slot, mapping),
    {
        self.regions.insert(slot, Registration { region, mapping });
        assert(self@ =~= old(self)@.insert(slot, region));
        assert(self.mappings() =~= old(self).mappings().insert(slot, mapping));
    }

    /// Drops the registration under `slot`, if there is one, and hands its
    /// mapping back.
    pub fn remove(&mut self, slot: u32) -> (mapping: Option<M>)
        ensures
            final(self)@ == old(self)@.remove(slot),
            final(self).mappings() == old(self).mappings().remove(slot),
            mapping == (if old(self).mappings().contains_key(slot) {
                Some(old(self).mappings()[slot])
            } else {
                None::<M>
            }),
    {
        let removed = self.regions.remove(&slot);
        assert(self@ =~= old(self)@.remove(slot));
        assert(self.mappings() =~= old(self).mappings().remove(slot));
        match removed {
            Some(registration) => Some(registration.mapping),
            None => None,
        }
    }
}

} // verus!
