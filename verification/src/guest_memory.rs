//! The guest's physical memory as a description: where each region starts in
//! the guest's address space, how long it is, and at which host address its
//! backing memory is mapped. The memory itself is not held here.

use vstd::prelude::*;

verus! {

/// An address in the guest's physical address space.
#[derive(Clone, Copy, Debug, PartialEq, Eq, Structural)]
pub struct GuestAddress(pub u64);

impl GuestAddress {
    /// The address as a number.
    pub fn offset(self) -> (o: u64)
        ensures
            o == self.0,
    {
        self.0
    }

    /// The address `other` bytes further on, unless that leaves the 64-bit
    /// range.
    pub fn checked_add(self, other: u64) -> (r: Option<GuestAddress>)
        ensures
            r == (if self.0 + other <= u64::MAX {
                Some(GuestAddress((self.0 + other) as u64))
            } else {
                None::<GuestAddress>
            }),
    {
        match self.0.checked_add(other) {
            Some(sum) => Some(GuestAddress(sum)),
            None => None,
        }
    }
}

/// One region of guest memory.
#[derive(Clone, Copy, Debug, PartialEq, Eq, Structural)]
pub struct MemoryRegion {
    /// Where the region starts in the guest's address space.
    pub guest_base: GuestAddress,
    /// Its length in bytes.
    pub size: u64,
    /// The host virtual address at which its backing memory is mapped.
    pub host_addr: u64,
}

impl MemoryRegion {
    /// The first guest address past the region.
    pub open spec fn end(self) -> int {
        self.guest_base.0 + self.size
    }

    /// Whether the region shares an address with `[start, end)`.
    pub open spec fn overlaps(self, start: int, end: int) -> bool {
        self.guest_base.0 < end && start < self.end()
    }
}

/// Whether `regions` is a layout that a [`GuestMemory`] accepts: every region
/// ends within the 64-bit range, and each one ends at or before the start of
/// the next.
pub open spec fn layout_valid(regions: Seq<MemoryRegion>) -> bool {
    &&& forall|i: int| 0 <= i < regions.len() ==> (#[trigger] regions[i]).end() <= u64::MAX
    &&& forall|i: int|
        0 <= i < regions.len() - 1 ==> (#[trigger] regions[i]).end() <= regions[i + 1].guest_base.0
}

/// The number of bytes in all of `regions`.
pub open spec fn total_size(regions: Seq<MemoryRegion>) -> int
    decreases regions.len(),
{
    if regions.len() == 0 {
        0
    } else {
        total_size(regions.drop_last()) + regions.last().size
    }
}

/// Whether some region of `regions` shares an address with `[start, end)`.
pub open spec fn any_overlap(regions: Seq<MemoryRegion>, start: int, end: int) -> bool {
    exists|i: int| 0 <= i < regions.len() && (#[trigger] regions[i]).overlaps(start, end)
}

/// The regions that `ranges` describe, none of them mapped yet.
pub open spec fn unmapped_regions(ranges: Seq<(GuestAddress, u64)>) -> Seq<MemoryRegion> {
    Seq::new(
        ranges.len(),
        |i: int| MemoryRegion { guest_base: ranges[i].0, size: ranges[i].1, host_addr: 0 },
    )
}

/// In a valid layout the sizes of the first `n` regions add up to no more
/// than the end of the last of them.
pub proof fn lemma_total_size_bounded(regions: Seq<MemoryRegion>, n: int)
    requires
        layout_valid(regions),
        0 <= n <= regions.len(),
    ensures
        0 <= total_size(regions.take(n)),
        n > 0 ==> total_size(regions.take(n)) <= regions[n - 1].end(),
        n == 0 ==> total_size(regions.take(n)) == 0,
    decreases n,
{
    if n > 0 {
        lemma_total_size_bounded(regions, n - 1);
        assert(regions.take(n).drop_last() =~= regions.take(n - 1));
        assert(regions.take(n).last() == regions[n - 1]);
        if n > 1 {
            assert(regions[n - 2].end() <= regions[n - 2 + 1].guest_base.0);
        }
    }
}

/// A place in guest memory: a region and an offset into it.
#[derive(Clone, Copy, Debug, PartialEq, Eq, Structural)]
pub struct RegionOffset {
    /// The index of the region, counted from 0 in ascending order of
    /// address.
    pub index: usize,
    /// The number of bytes from the start of the region to the place.
    pub offset: u64,
    /// The number of bytes from the place to the end of the region.
    pub available: u64,
}

/// Why a description of guest memory was refused.
#[derive(Clone, Copy, Debug, PartialEq, Eq, Structural)]
pub enum GuestMemoryError {
    /// A region runs into the one after it, or past the end of the address
    /// space.
    MemoryRegionOverlap,
}

/// The fixed regions of a guest's physical memory, in ascending order and
/// without overlap.
#[derive(Debug, PartialEq, Eq)]
pub struct GuestMemory {
    regions: Vec<MemoryRegion>,
}

impl View for GuestMemory {
    type V = Seq<MemoryRegion>;

    closed spec fn view(&self) -> Seq<MemoryRegion> {
        self.regions@
    }
}

impl GuestMemory {
    /// The invariant of the type: the regions form a valid layout.
    pub open spec fn wf(&self) -> bool {
        layout_valid(self@)
    }

    /// Describes guest memory made of `regions`, which must come in
    /// ascending order and without overlap.
    pub fn from_regions(regions: Vec<MemoryRegion>) -> (r: Result<GuestMemory, GuestMemoryError>)
        ensures
            layout_valid(regions@) ==> r is Ok && r->Ok_0@ == regions@ && r->Ok_0.wf(),
            !layout_valid(regions@) ==> r == Err::<GuestMemory, _>(
                GuestMemoryError::MemoryRegionOverlap,
            ),
    {
        let n = regions.len();
        let mut i: usize = 0;
        while i < n
            invariant
                n == regions.len(),
                0 <= i <= n,
                layout_valid(regions@.take(i as int)),
            decreases n - i,
        {
            let region = regions[i];
            let end = match region.guest_base.checked_add(region.size) {
                Some(end) => end,
                None => {
                    assert(!(regions@[i as int].end() <= u64::MAX));
                    return Err(GuestMemoryError::MemoryRegionOverlap);
                },
            };
            if i > 0 {
                let before = regions[i - 1];
                // `before` ends within range, as the prefix is valid
                assert(regions@.take(i as int)[i - 1] == before);
                assert(before.end() <= u64::MAX);
                if before.guest_base.0 + before.size > region.guest_base.0 {
                    assert(!(regions@[i - 1].end() <= regions@[i - 1 + 1].guest_base.0));
                    return Err(GuestMemoryError::MemoryRegionOverlap);
                }
            }
            proof {
                let next = regions@.take(i + 1);
                let prev = regions@.take(i as int);
                assert forall|k: int| 0 <= k < next.len() implies (#[trigger] next[k]).end()
                    <= u64::MAX by {
                    if k < i {
                        assert(prev[k] == next[k]);
                    }
                }
                assert forall|k: int| 0 <= k < next.len() - 1 implies (#[trigger] next[k]).end()
                    <= next[k + 1].guest_base.0 by {
                    if k < i - 1 {
                        assert(prev[k] == next[k]);
                        assert(prev[k + 1] == next[k + 1]);
                    }
                }
            }
            i += 1;
        }
        assert(regions@.take(n as int) =~= regions@);
        Ok(GuestMemory { regions })
    }

    /// Describes guest memory made of the given `(start, length)` ranges,
    /// which must come in ascending order and without overlap. No region has
    /// a host mapping yet: each host address is 0.
    pub fn new(ranges: &[(GuestAddress, u64)]) -> (r: Result<GuestMemory, GuestMemoryError>)
        ensures
            layout_valid(unmapped_regions(ranges@)) ==> r is Ok && r->Ok_0@ == unmapped_regions(
                ranges@,
            ) && r->Ok_0.wf(),
            !layout_valid(unmapped_regions(ranges@)) ==> r == Err::<GuestMemory, _>(
                GuestMemoryError::MemoryRegionOverlap,
            ),
    {
        let mut regions: Vec<MemoryRegion> = Vec::new();
        let mut i: usize = 0;
        while i < ranges.len()
            invariant
                0 <= i <= ranges.len(),
                regions@ =~= unmapped_regions(ranges@).take(i as int),
            decreases ranges.len() - i,
        {
            let range = ranges[i];
            regions.push(MemoryRegion { guest_base: range.0, size: range.1, host_addr: 0 });
            i += 1;
        }
        assert(unmapped_regions(ranges@).take(ranges@.len() as int) =~= unmapped_regions(ranges@));
        GuestMemory::from_regions(regions)
    }

    /// The number of regions.
    pub fn num_regions(&self) -> (n: u64)
        ensures
            n == self@.len(),
    {
        self.regions.len() as u64
    }

    /// The region at `index`, counted from 0 in ascending order of address.
    pub fn region(&self, index: usize) -> (r: Option<MemoryRegion>)
        ensures
            r == (if index < self@.len() {
                Some(self@[index as int])
            } else {
                None::<MemoryRegion>
            }),
    {
        if index < self.regions.len() {
            Some(self.regions[index])
        } else {
            None
        }
    }

    /// The number of bytes of guest memory, all regions together.
    pub fn memory_size(&self) -> (size: u64)
        requires
            self.wf(),
        ensures
            size == total_size(self@),
    {
        let mut size: u64 = 0;
        let mut i: usize = 0;
        proof {
            lemma_total_size_bounded(self@, 0);
        }
        while i < self.regions.len()
            invariant
                self.wf(),
                0 <= i <= self.regions.len(),
                size == total_size(self@.take(i as int)),
            decreases self.regions.len() - i,
        {
            proof {
                lemma_total_size_bounded(self@, i + 1);
                assert(self@.take(i + 1).drop_last() =~= self@.take(i as int));
                assert(self@[i as int].end() <= u64::MAX);
            }
            size = size + self.regions[i].size;
            i += 1;
        }
        assert(self@.take(self@.len() as int) =~= self@);
        size
    }

    /// Where `guest_addr` lies in guest memory: the index of the region that
    /// holds it, how far into the region it is, and how many bytes of the
    /// region follow from there. `None` where no region holds the address.
    pub fn locate(&self, guest_addr: GuestAddress) -> (place: Option<RegionOffset>)
        requires
            self.wf(),
        ensures
            match place {
                Some(place) => {
                    &&& place.index < self@.len()
                    &&& self@[place.index as int].guest_base.0 <= guest_addr.0
                        < self@[place.index as int].end()
                    &&& place.offset == guest_addr.0 - self@[place.index as int].guest_base.0
                    &&& place.available == self@[place.index as int].end() - guest_addr.0
                },
                None => forall|i: int|
                    0 <= i < self@.len() ==> !((#[trigger] self@[i]).guest_base.0 <= guest_addr.0
                        < self@[i].end()),
            },
    {
        let mut index: usize = 0;
        while index < self.regions.len()
            invariant
                self.wf(),
                0 <= index <= self.regions.len(),
                forall|i: int|
                    0 <= i < index ==> !((#[trigger] self@[i]).guest_base.0 <= guest_addr.0
                        < self@[i].end()),
            decreases self.regions.len() - index,
        {
            let region = self.regions[index];
            assert(self@[index as int].end() <= u64::MAX);
            if region.guest_base.0 <= guest_addr.0 && guest_addr.0 - region.guest_base.0
                < region.size {
                let offset = guest_addr.0 - region.guest_base.0;
                return Some(RegionOffset { index, offset, available: region.size - offset });
            }
            index += 1;
        }
        None
    }

    /// Whether `[start, end)` shares an address with a region of guest
    /// memory.
    pub fn range_overlap(&self, start: GuestAddress, end: GuestAddress) -> (overlap: bool)
        requires
            self.wf(),
        ensures
            overlap == any_overlap(self@, start.0 as int, end.0 as int),
    {
        let mut i: usize = 0;
        while i < self.regions.len()
            invariant
                self.wf(),
                0 <= i <= self.regions.len(),
                !any_overlap(self@.take(i as int), start.0 as int, end.0 as int),
            decreases self.regions.len() - i,
        {
            let region = self.regions[i];
            assert(self@[i as int].end() <= u64::MAX);
            if region.guest_base.0 < end.0 && start.0 < region.guest_base.0 + region.size {
                assert(self@[i as int].overlaps(start.0 as int, end.0 as int));
                return true;
            }
            proof {
                let next = self@.take(i + 1);
                assert forall|k: int| 0 <= k < next.len() implies !(#[trigger] next[k]).overlaps(
                    start.0 as int,
                    end.0 as int,
                ) by {
                    if k < i {
                        assert(self@.take(i as int)[k] == next[k]);
                    }
                }
            }
            i += 1;
        }
        assert(self@.take(self@.len() as int) =~= self@);
        false
    }
}

} // verus!
