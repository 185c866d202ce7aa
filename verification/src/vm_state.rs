//! The state of a virtual machine context as mathematics: what each
//! operation on memory regions makes of it, and what holds of every sequence
//! of such operations.

use vstd::prelude::*;
use crate::abi::{memory_region_flags, UserMemoryRegion};
use crate::guest_memory::{any_overlap, layout_valid, GuestAddress, MemoryRegion};
use crate::mmap::{HostRange, MappedRegion};
use crate::slots::{
    is_smallest_inactive, lemma_freed_slot_is_reused, lemma_next_slot_is_smallest_inactive,
    lemma_slot_returned, lemma_slot_taken, next_slot, slots_dense,
};
use crate::sys::{Error, SysReturn};

verus! {

/// Whether no region that is active runs past the 64-bit range, overlaps a
/// fixed region, or overlaps another region that is active.
#[verifier::opaque]
pub open spec fn regions_disjoint(
    fixed: Seq<MemoryRegion>,
    active: Map<u32, MemoryRegion>,
) -> bool {
    &&& forall|slot: u32|
        active.contains_key(slot) ==> (#[trigger] active[slot]).end() <= u64::MAX && !any_overlap(
            fixed,
            active[slot].guest_base.0 as int,
            active[slot].end(),
        )
    &&& forall|s: u32, t: u32|
        active.contains_key(s) && active.contains_key(t) && s != t ==> !(
        #[trigger] active[s]).overlaps(
            (#[trigger] active[t]).guest_base.0 as int,
            active[t].end(),
        )
}

/// What a virtual machine context holds, as mathematics.
pub struct VmState {
    /// The fixed regions of guest memory, which take the first slots.
    pub fixed: Seq<MemoryRegion>,
    /// How many of the fixed regions the kernel has taken so far, in order.
    pub registered: nat,
    /// The regions registered since, by slot.
    pub active: Map<u32, MemoryRegion>,
    /// The slots that were given back and wait to be used again.
    pub free: Set<u32>,
}

impl VmState {
    /// The number of slots that the fixed regions took.
    pub open spec fn base(self) -> nat {
        self.fixed.len()
    }

    /// Whether a registered region shares an address with `[start, end)`.
    pub open spec fn active_overlap(self, start: int, end: int) -> bool {
        exists|slot: u32|
            self.active.contains_key(slot) && (#[trigger] self.active[slot]).overlaps(start, end)
    }

    /// The invariant of a virtual machine context: the fixed regions form a
    /// valid layout; every slot ever handed out is either active or free,
    /// never both, and those slots are dense; and no registered region
    /// overlaps a fixed region or another registered region.
    pub open spec fn wf(self) -> bool {
        &&& layout_valid(self.fixed)
        &&& self.registered <= self.fixed.len()
        &&& slots_dense(self.base(), self.active.dom(), self.free)
        &&& regions_disjoint(self.fixed, self.active)
    }

    /// The registration of fixed region `index`: under slot `index`,
    /// writable, without dirty-page logging.
    pub open spec fn fixed_region_request(self, index: int) -> UserMemoryRegion {
        UserMemoryRegion {
            slot: index as u32,
            flags: 0,
            guest_phys_addr: self.fixed[index].guest_base.0,
            memory_size: self.fixed[index].size,
            userspace_addr: self.fixed[index].host_addr,
        }
    }

    /// What to ask the kernel next in order to register the fixed regions:
    /// the registration of the first region that it has not taken yet, or
    /// nothing where it has taken them all.
    pub open spec fn initial_request(self) -> Option<UserMemoryRegion> {
        if self.registered < self.fixed.len() {
            Some(self.fixed_region_request(self.registered as int))
        } else {
            None
        }
    }

    /// The state after the kernel answered `ret` to the request of
    /// [`VmState::initial_request`], and what the caller is told. A region
    /// that the kernel took counts as registered. One that it refused is the
    /// failure of the whole setup; the regions taken before stay registered.
    pub open spec fn initial_registered(self, ret: SysReturn) -> (VmState, Result<(), Error>) {
        if ret.ret != 0 {
            (self, Err(ret.spec_error()))
        } else if self.registered < self.fixed.len() {
            (VmState { registered: self.registered + 1, ..self }, Ok(()))
        } else {
            (self, Ok(()))
        }
    }

    /// Whether the kernel has taken every fixed region.
    pub open spec fn is_ready(self) -> bool {
        self.registered == self.fixed.len()
    }

    /// The slot that the next registration gets, see [`next_slot`].
    pub open spec fn next_slot(self) -> int {
        next_slot(self.base(), self.active.dom(), self.free)
    }

    /// What to ask the kernel in order to register `mem` at `guest_addr`, or
    /// why the registration is refused before the kernel is asked:
    /// `Overflow` where the end of the range is past the 64-bit range,
    /// `NoSpace` where the range overlaps a fixed or a registered region,
    /// and `NoSpace` where no slot identifier is left.
    #[verifier::opaque]
    pub open spec fn add_request(
        self,
        guest_addr: GuestAddress,
        mem: MappedRegion,
        read_only: bool,
        log_dirty_pages: bool,
    ) -> Result<UserMemoryRegion, Error> {
        let end = guest_addr.0 + mem.size;
        if end > u64::MAX {
            Err(Error::Overflow)
        } else if any_overlap(self.fixed, guest_addr.0 as int, end) || self.active_overlap(
            guest_addr.0 as int,
            end,
        ) {
            Err(Error::NoSpace)
        } else if self.next_slot() > u32::MAX {
            Err(Error::NoSpace)
        } else {
            Ok(
                UserMemoryRegion {
                    slot: self.next_slot() as u32,
                    flags: memory_region_flags(read_only, log_dirty_pages),
                    guest_phys_addr: guest_addr.0,
                    memory_size: mem.size,
                    userspace_addr: mem.addr,
                },
            )
        }
    }

    /// The state after the kernel answered `ret` to the request of
    /// [`VmState::add_request`], and what the caller is told. A refused
    /// registration changes nothing. A registration that the kernel refused
    /// leaves its slot in the pool of free slots. One that the kernel took is
    /// active under its slot.
    pub open spec fn add(
        self,
        guest_addr: GuestAddress,
        mem: MappedRegion,
        read_only: bool,
        log_dirty_pages: bool,
        ret: SysReturn,
    ) -> (VmState, Result<u32, Error>) {
        match self.add_request(guest_addr, mem, read_only, log_dirty_pages) {
            Err(e) => (self, Err(e)),
            Ok(request) => if ret.ret == 0 {
                (
                    VmState {
                        active: self.active.insert(
                            request.slot,
                            MemoryRegion {
                                guest_base: guest_addr,
                                size: mem.size,
                                host_addr: mem.addr,
                            },
                        ),
                        free: self.free.remove(request.slot),
                        ..self
                    },
                    Ok(request.slot),
                )
            } else {
                (
                    VmState { free: self.free.insert(request.slot), ..self },
                    Err(ret.spec_error()),
                )
            },
        }
    }

    /// What to ask the kernel in order to remove the region under `slot`: to
    /// clear the slot. `NotFound` where the slot is not active.
    pub open spec fn remove_request(self, slot: u32) -> Result<UserMemoryRegion, Error> {
        if self.active.contains_key(slot) {
            Ok(
                UserMemoryRegion {
                    slot,
                    flags: 0,
                    guest_phys_addr: 0,
                    memory_size: 0,
                    userspace_addr: 0,
                },
            )
        } else {
            Err(Error::NotFound)
        }
    }

    /// The state after the kernel answered `ret` to the request of
    /// [`VmState::remove_request`], and what the caller is told. Only a
    /// removal that the kernel took changes the state: the slot is free
    /// again.
    pub open spec fn remove(self, slot: u32, ret: SysReturn) -> (VmState, Result<(), Error>) {
        if !self.active.contains_key(slot) {
            (self, Err(Error::NotFound))
        } else if ret.ret != 0 {
            (self, Err(ret.spec_error()))
        } else {
            (
                VmState { active: self.active.remove(slot), free: self.free.insert(slot), ..self },
                Ok(()),
            )
        }
    }

    /// The host range to flush for `size` bytes from `offset` on of the
    /// region under `slot`: `NotFound` where the slot is not active,
    /// `BadAddress` where the bytes are not all inside the region.
    pub open spec fn msync_request(self, slot: u32, offset: usize, size: usize) -> Result<
        HostRange,
        Error,
    > {
        if !self.active.contains_key(slot) {
            Err(Error::NotFound)
        } else {
            let region = self.active[slot];
            let mem = MappedRegion { addr: region.host_addr, size: region.size };
            match mem.spec_msync(offset, size) {
                Ok(range) => Ok(range),
                Err(e) => Err(e.spec_to_error()),
            }
        }
    }
}

/// One operation on the memory regions of a virtual machine, together with
/// the kernel's answer to the request that the operation makes.
pub enum VmOp {
    /// The next fixed region is registered.
    Register { ret: SysReturn },
    /// `mem` is registered at `guest_addr`.
    Add {
        guest_addr: GuestAddress,
        mem: MappedRegion,
        read_only: bool,
        log_dirty_pages: bool,
        ret: SysReturn,
    },
    /// The region under `slot` is removed.
    Remove { slot: u32, ret: SysReturn },
}

impl VmState {
    /// The state after one operation.
    pub open spec fn apply(self, op: VmOp) -> VmState {
        match op {
            VmOp::Add { guest_addr, mem, read_only, log_dirty_pages, ret } => self.add(
                guest_addr,
                mem,
                read_only,
                log_dirty_pages,
                ret,
            ).0,
            VmOp::Remove { slot, ret } => self.remove(slot, ret).0,
            VmOp::Register { ret } => self.initial_registered(ret).0,
        }
    }

    /// The state after the operations `ops`, the first one first.
    pub open spec fn run(self, ops: Seq<VmOp>) -> VmState
        decreases ops.len(),
    {
        if ops.len() == 0 {
            self
        } else {
            self.run(ops.drop_last()).apply(ops.last())
        }
    }

    /// The state of a virtual machine that has just been created over the
    /// fixed regions `fixed`.
    pub open spec fn initial(fixed: Seq<MemoryRegion>) -> VmState {
        VmState { fixed, registered: 0, active: Map::empty(), free: Set::empty() }
    }

    /// A virtual machine that has just been created over a valid layout of
    /// no more regions than there are slot identifiers is well-formed.
    pub proof fn lemma_initial_wf(fixed: Seq<MemoryRegion>)
        requires
            layout_valid(fixed),
            fixed.len() <= 0x1_0000_0000,
        ensures
            Self::initial(fixed).wf(),
    {
        reveal(slots_dense);
        reveal(regions_disjoint);
        let state = Self::initial(fixed);
        assert(state.active.dom() =~= Set::<u32>::empty());
        assert(state.active.dom().len() == 0);
        assert(state.free.len() == 0);
    }

    /// The state after the kernel took `count` more fixed regions.
    pub open spec fn after_registrations(self, count: nat) -> VmState
        decreases count,
    {
        if count == 0 {
            self
        } else {
            self.after_registrations((count - 1) as nat).initial_registered(
                SysReturn { ret: 0, errno: 0 },
            ).0
        }
    }

    /// While the kernel takes what it is asked, the fixed regions are
    /// registered in their order, region `k` under slot `k`, and once it has
    /// taken as many as there are the setup is complete.
    pub proof fn lemma_initial_requests_in_order(fixed: Seq<MemoryRegion>, count: nat)
        requires
            count <= fixed.len(),
        ensures
            Self::initial(fixed).after_registrations(count) == (VmState {
                registered: count,
                ..Self::initial(fixed)
            }),
            count < fixed.len() ==> Self::initial(fixed).after_registrations(
                count,
            ).initial_request() == Some(Self::initial(fixed).fixed_region_request(count as int)),
            count == fixed.len() ==> Self::initial(fixed).after_registrations(count).is_ready()
                && Self::initial(fixed).after_registrations(count).initial_request() is None,
        decreases count,
    {
        if count > 0 {
            Self::lemma_initial_requests_in_order(fixed, (count - 1) as nat);
        }
    }

    /// The region that a registration of `mem` at `guest_addr` makes active.
    pub open spec fn region_of(guest_addr: GuestAddress, mem: MappedRegion) -> MemoryRegion {
        MemoryRegion { guest_base: guest_addr, size: mem.size, host_addr: mem.addr }
    }

    /// A request to register a region names the smallest slot identifier
    /// that is not active, which is free or the next one that was never
    /// used.
    pub proof fn lemma_add_request_slot(
        self,
        guest_addr: GuestAddress,
        mem: MappedRegion,
        read_only: bool,
        log_dirty_pages: bool,
    )
        requires
            self.wf(),
        ensures
            self.add_request(guest_addr, mem, read_only, log_dirty_pages) matches Ok(request)
                ==> {
                &&& request.slot == self.next_slot()
                &&& is_smallest_inactive(self.base(), self.active.dom(), request.slot as int)
                &&& !self.active.contains_key(request.slot)
                &&& self.free != Set::<u32>::empty() ==> self.free.contains(request.slot)
                &&& self.free == Set::<u32>::empty() ==> request.slot == self.base()
                    + self.active.dom().len()
            },
    {
        reveal(VmState::add_request);
        if self.add_request(guest_addr, mem, read_only, log_dirty_pages) is Ok {
            let slot = self.next_slot() as u32;
            lemma_next_slot_is_smallest_inactive(self.base(), self.active.dom(), self.free);
            lemma_slot_taken(self.base(), self.active.dom(), self.free, slot);
        }
    }

    /// A region that overlaps nothing can be made active under a new slot.
    proof fn lemma_disjoint_insert(self, slot: u32, region: MemoryRegion)
        requires
            regions_disjoint(self.fixed, self.active),
            !self.active.contains_key(slot),
            region.end() <= u64::MAX,
            !any_overlap(self.fixed, region.guest_base.0 as int, region.end()),
            !self.active_overlap(region.guest_base.0 as int, region.end()),
        ensures
            regions_disjoint(self.fixed, self.active.insert(slot, region)),
    {
        reveal(regions_disjoint);
        let after = VmState { active: self.active.insert(slot, region), ..self };
        assert forall|s: u32| after.active.contains_key(s) implies (
        #[trigger] after.active[s]).end() <= u64::MAX && !any_overlap(
            after.fixed,
            after.active[s].guest_base.0 as int,
            after.active[s].end(),
        ) by {
            if s != slot {
                assert(self.active.contains_key(s));
                assert(after.active[s] == self.active[s]);
            }
        }
        assert forall|s: u32, t: u32|
            after.active.contains_key(s) && after.active.contains_key(t) && s != t implies !(
            #[trigger] after.active[s]).overlaps(
            (#[trigger] after.active[t]).guest_base.0 as int,
            after.active[t].end(),
        ) by {
            if s == slot {
                assert(self.active.contains_key(t));
                assert(!self.active[t].overlaps(region.guest_base.0 as int, region.end()));
            } else if t == slot {
                assert(self.active.contains_key(s));
                assert(!self.active[s].overlaps(region.guest_base.0 as int, region.end()));
            } else {
                assert(self.active.contains_key(s));
                assert(self.active.contains_key(t));
            }
        }
    }

    /// What is left when a region is removed overlaps nothing.
    proof fn lemma_disjoint_remove(self, slot: u32)
        requires
            regions_disjoint(self.fixed, self.active),
        ensures
            regions_disjoint(self.fixed, self.active.remove(slot)),
    {
        reveal(regions_disjoint);
        let after = VmState { active: self.active.remove(slot), ..self };
        assert forall|s: u32| after.active.contains_key(s) implies (
        #[trigger] after.active[s]).end() <= u64::MAX && !any_overlap(
            after.fixed,
            after.active[s].guest_base.0 as int,
            after.active[s].end(),
        ) by {
            assert(self.active.contains_key(s));
        }
        assert forall|s: u32, t: u32|
            after.active.contains_key(s) && after.active.contains_key(t) && s != t implies !(
            #[trigger] after.active[s]).overlaps(
            (#[trigger] after.active[t]).guest_base.0 as int,
            after.active[t].end(),
        ) by {
            assert(self.active.contains_key(s));
            assert(self.active.contains_key(t));
        }
    }

    /// Registering a region keeps the state well-formed, whatever the kernel
    /// answers.
    pub proof fn lemma_add_wf(
        self,
        guest_addr: GuestAddress,
        mem: MappedRegion,
        read_only: bool,
        log_dirty_pages: bool,
        ret: SysReturn,
    )
        requires
            self.wf(),
        ensures
            self.add(guest_addr, mem, read_only, log_dirty_pages, ret).0.wf(),
    {
        reveal(VmState::add_request);
        let request = self.add_request(guest_addr, mem, read_only, log_dirty_pages);
        if request is Ok {
            let slot = request->Ok_0.slot;
            let region = Self::region_of(guest_addr, mem);
            self.lemma_add_request_slot(guest_addr, mem, read_only, log_dirty_pages);
            if ret.ret == 0 {
                let after = VmState {
                    active: self.active.insert(slot, region),
                    free: self.free.remove(slot),
                    ..self
                };
                assert(self.add(guest_addr, mem, read_only, log_dirty_pages, ret).0 == after);
                lemma_slot_taken(self.base(), self.active.dom(), self.free, slot);
                assert(after.active.dom() =~= self.active.dom().insert(slot));
                self.lemma_disjoint_insert(slot, region);
            } else {
                lemma_slot_returned(self.base(), self.active.dom(), self.free, slot);
            }
        }
    }

    /// Removing a region keeps the state well-formed, whatever the kernel
    /// answers.
    pub proof fn lemma_remove_wf(self, slot: u32, ret: SysReturn)
        requires
            self.wf(),
        ensures
            self.remove(slot, ret).0.wf(),
    {
        if self.active.contains_key(slot) && ret.ret == 0 {
            let after = self.remove(slot, ret).0;
            assert(after.active.dom() =~= self.active.dom().remove(slot));
            lemma_freed_slot_is_reused(self.base(), self.active.dom(), self.free, slot);
            self.lemma_disjoint_remove(slot);
        }
    }

    /// Every sequence of operations keeps the state well-formed: each slot
    /// that was ever handed out is active or free, never both, the slots are
    /// dense, and no two regions overlap.
    pub proof fn lemma_run_wf(self, ops: Seq<VmOp>)
        requires
            self.wf(),
        ensures
            self.run(ops).wf(),
        decreases ops.len(),
    {
        if ops.len() > 0 {
            self.lemma_run_wf(ops.drop_last());
            let state = self.run(ops.drop_last());
            match ops.last() {
                VmOp::Add { guest_addr, mem, read_only, log_dirty_pages, ret } => {
                    state.lemma_add_wf(guest_addr, mem, read_only, log_dirty_pages, ret);
                },
                VmOp::Remove { slot, ret } => {
                    state.lemma_remove_wf(slot, ret);
                },
                VmOp::Register { ret } => {},
            }
        }
    }

    /// The slot that a registration returns is the smallest identifier that
    /// is not active, and it was free or is the next one that was never
    /// used.
    pub proof fn lemma_add_slot(
        self,
        guest_addr: GuestAddress,
        mem: MappedRegion,
        read_only: bool,
        log_dirty_pages: bool,
        ret: SysReturn,
    )
        requires
            self.wf(),
        ensures
            self.add(guest_addr, mem, read_only, log_dirty_pages, ret).1 matches Ok(slot) ==> {
                &&& is_smallest_inactive(self.base(), self.active.dom(), slot as int)
                &&& self.free != Set::<u32>::empty() ==> self.free.contains(slot)
                &&& self.free == Set::<u32>::empty() ==> slot == self.base()
                    + self.active.dom().len()
            },
    {
        self.lemma_add_request_slot(guest_addr, mem, read_only, log_dirty_pages);
    }

    /// After any sequence of operations, the slot that a registration
    /// returns is the smallest identifier that is not active.
    pub proof fn lemma_slot_is_smallest_inactive(
        self,
        ops: Seq<VmOp>,
        guest_addr: GuestAddress,
        mem: MappedRegion,
        read_only: bool,
        log_dirty_pages: bool,
        ret: SysReturn,
    )
        requires
            self.wf(),
        ensures
            self.run(ops).add(guest_addr, mem, read_only, log_dirty_pages, ret).1 matches Ok(slot)
                ==> is_smallest_inactive(
                self.base(),
                self.run(ops).active.dom(),
                slot as int,
            ),
    {
        self.lemma_run_wf(ops);
        self.lemma_run_keeps_fixed(ops);
        self.run(ops).lemma_add_slot(guest_addr, mem, read_only, log_dirty_pages, ret);
    }

    /// No operation changes the fixed regions.
    pub proof fn lemma_run_keeps_fixed(self, ops: Seq<VmOp>)
        ensures
            self.run(ops).fixed == self.fixed,
        decreases ops.len(),
    {
        if ops.len() > 0 {
            self.lemma_run_keeps_fixed(ops.drop_last());
        }
    }

    /// A region that overlaps a fixed region or a region that is active is
    /// refused before the kernel is asked, and the state stays as it is.
    /// The error is `NoSpace`, or `Overflow` where the region ends past the
    /// 64-bit range.
    pub proof fn lemma_overlap_is_refused(
        self,
        guest_addr: GuestAddress,
        mem: MappedRegion,
        read_only: bool,
        log_dirty_pages: bool,
        ret: SysReturn,
    )
        requires
            any_overlap(self.fixed, guest_addr.0 as int, guest_addr.0 + mem.size)
                || self.active_overlap(guest_addr.0 as int, guest_addr.0 + mem.size),
        ensures
            self.add(guest_addr, mem, read_only, log_dirty_pages, ret) == (
                self,
                Err::<u32, Error>(
                    if guest_addr.0 + mem.size > u64::MAX {
                        Error::Overflow
                    } else {
                        Error::NoSpace
                    },
                ),
            ),
    {
        reveal(VmState::add_request);
    }

    /// Removing a slot that is not active, because it was never handed out
    /// or was removed already, fails with `NotFound` and changes nothing.
    pub proof fn lemma_remove_inactive_is_not_found(self, slot: u32, ret: SysReturn)
        requires
            !self.active.contains_key(slot),
        ensures
            self.remove(slot, ret) == (self, Err::<(), Error>(Error::NotFound)),
    {
    }

    /// A slot that was removed cannot be removed again.
    pub proof fn lemma_remove_twice_is_not_found(
        self,
        slot: u32,
        first: SysReturn,
        second: SysReturn,
    )
        requires
            self.remove(slot, first).1 is Ok,
        ensures
            self.remove(slot, first).0.remove(slot, second).1 == Err::<(), Error>(Error::NotFound),
    {
    }

    /// In a well-formed state no slot of a fixed region and no slot that was
    /// never handed out is active, so removing one fails with `NotFound`.
    pub proof fn lemma_remove_unallocated_is_not_found(self, slot: u32, ret: SysReturn)
        requires
            self.wf(),
            slot < self.base() || slot >= self.base() + self.active.dom().len() + self.free.len(),
        ensures
            self.remove(slot, ret) == (self, Err::<(), Error>(Error::NotFound)),
    {
        reveal(slots_dense);
        if self.active.contains_key(slot) {
            assert(self.active.dom().contains(slot));
        }
    }

    /// Removing a slot that is active, where the kernel agrees, leaves it
    /// free.
    proof fn lemma_removed(self, slot: u32, removed: SysReturn)
        requires
            self.remove(slot, removed).1 is Ok,
        ensures
            self.active.contains_key(slot),
            self.remove(slot, removed).0 == (VmState {
                active: self.active.remove(slot),
                free: self.free.insert(slot),
                ..self
            }),
            self.remove(slot, removed).0.active.dom() == self.active.dom().remove(slot),
    {
        assert(self.active.remove(slot).dom() =~= self.active.dom().remove(slot));
    }

    /// After a slot was removed, the next registration uses a slot that was
    /// handed out before, none above the one removed, and mints no new
    /// identifier. Where no other slot was free, it is the very slot that
    /// was removed.
    pub proof fn lemma_removed_slot_is_reused(
        self,
        slot: u32,
        removed: SysReturn,
        guest_addr: GuestAddress,
        mem: MappedRegion,
        read_only: bool,
        log_dirty_pages: bool,
        ret: SysReturn,
    )
        requires
            self.wf(),
            self.remove(slot, removed).1 is Ok,
        ensures
            self.remove(slot, removed).0.add(guest_addr, mem, read_only, log_dirty_pages, ret).1
                matches Ok(reused) ==> {
                &&& reused <= slot
                &&& reused < self.base() + self.active.dom().len() + self.free.len()
                &&& reused == slot || self.free.contains(reused)
                &&& self.free == Set::<u32>::empty() ==> reused == slot
            },
    {
        let after = self.remove(slot, removed).0;
        self.lemma_removed(slot, removed);
        self.lemma_remove_wf(slot, removed);
        lemma_freed_slot_is_reused(self.base(), self.active.dom(), self.free, slot);
        let next = next_slot(self.base(), self.active.dom().remove(slot), self.free.insert(slot));
        assert(after.next_slot() == next);
        after.lemma_add_slot(guest_addr, mem, read_only, log_dirty_pages, ret);
        let result = after.add(guest_addr, mem, read_only, log_dirty_pages, ret).1;
        if result is Ok {
            let reused = result->Ok_0;
            assert(after.free.contains(slot));
            assert(after.free != Set::<u32>::empty());
            assert(after.free.contains(reused));
            after.lemma_add_slot_is_next(guest_addr, mem, read_only, log_dirty_pages, ret);
            assert(reused == next);
        }
    }

    /// The slot that a registration returns is the one that
    /// [`VmState::next_slot`] names.
    pub proof fn lemma_add_slot_is_next(
        self,
        guest_addr: GuestAddress,
        mem: MappedRegion,
        read_only: bool,
        log_dirty_pages: bool,
        ret: SysReturn,
    )
        ensures
            self.add(guest_addr, mem, read_only, log_dirty_pages, ret).1 matches Ok(slot)
                ==> slot == self.next_slot(),
    {
        reveal(VmState::add_request);
    }
}

} // verus!
