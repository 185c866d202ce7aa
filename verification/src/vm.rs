//! The virtual machine context: the guest's fixed memory, the memory regions
//! registered on top of it, and the slot identifiers that go with them. What
//! its operations make of the state is written down in `vm_state`.

use vstd::prelude::*;
use crate::abi::{set_user_memory_region, KvmCreateDevice, UserMemoryRegion, KVM_DEV_TYPE_VFIO};
use crate::caps::{CapQuery, VmCap, KVM_CAP_KVMCLOCK_CTRL};
use crate::guest_memory::{GuestAddress, GuestMemory, MemoryRegion};
use crate::kvm::Kvm;
use crate::mmap::{msync_result, spec_msync_result, HostRange, MappedRegion};
use crate::region_map::RegionMap;
use crate::slots::{
    is_smallest_inactive, lemma_next_slot_is_smallest_free, lemma_next_slot_is_smallest_inactive,
    slots_dense, SlotPool,
};
use crate::sys::{descriptor_of_bits, field_descriptor, Error, RawDescriptor, SysReturn};
use crate::vcpu::KvmVcpu;
use crate::vm_state::{regions_disjoint, VmState};

verus! {

/// A kind of in-kernel device.
#[derive(Clone, Copy, Debug, PartialEq, Eq, Structural)]
pub enum DeviceKind {
    /// A device passed through from the host.
    Vfio,
    /// The ARM generic interrupt controller, version 2.
    ArmVgicV2,
    /// The ARM generic interrupt controller, version 3.
    ArmVgicV3,
}

/// A virtual machine.
///
/// `M` is what keeps a host mapping alive. A mapping that backs a registered
/// region is owned by the machine from its registration to its removal, so
/// the host address that the kernel was given stays valid for as long as the
/// kernel may use it.
#[derive(Debug, PartialEq, Eq)]
pub struct KvmVm<M> {
    vm: RawDescriptor,
    guest_mem: GuestMemory,
    registered: u64,
    mem_regions: RegionMap<M>,
    mem_slot_gaps: SlotPool,
}

impl<M> View for KvmVm<M> {
    type V = VmState;

    closed spec fn view(&self) -> VmState {
        VmState {
            fixed: self.guest_mem@,
            registered: self.registered as nat,
            active: self.mem_regions@,
            free: self.mem_slot_gaps@,
        }
    }
}

impl<M> KvmVm<M> {
    /// What the representation adds to the invariant of [`VmState`].
    pub closed spec fn inv(&self) -> bool {
        self.mem_slot_gaps.wf()
    }

    /// The invariant of the type.
    pub open spec fn wf(&self) -> bool {
        &&& self.inv()
        &&& self@.wf()
    }

    /// The descriptor of the virtual machine.
    pub closed spec fn spec_as_raw_descriptor(&self) -> RawDescriptor {
        self.vm
    }

    /// The mappings that the machine owns, by slot.
    pub closed spec fn mappings(&self) -> Map<u32, M> {
        self.mem_regions.mappings()
    }

    /// The machine owns a mapping for each slot that is active, and for no
    /// other.
    pub proof fn lemma_mappings(&self)
        ensures
            self.mappings().dom() == self@.active.dom(),
    {
        self.mem_regions.lemma_slots();
    }

    /// The guest memory that the machine was made over.
    pub closed spec fn spec_get_memory(&self) -> GuestMemory {
        self.guest_mem
    }

    /// The context of a virtual machine over `guest_mem`, given what the
    /// kernel returned when it was asked to create the machine. A negative
    /// return is the error that the kernel reported. Guest memory of more
    /// regions than there are slot identifiers is refused with `NoSpace`.
    /// The fixed regions take the slots from 0 on and are yet to be
    /// registered, see [`KvmVm::initial_region_request`]; nothing else is
    /// registered.
    pub fn new(kvm: &Kvm, guest_mem: GuestMemory, created: SysReturn) -> (r: Result<
        KvmVm<M>,
        Error,
    >)
        requires
            guest_mem.wf(),
        ensures
            created.ret < 0 ==> r == Err::<KvmVm<M>, _>(created.spec_error()),
            created.ret >= 0 && guest_mem@.len() > 0x1_0000_0000 ==> r == Err::<KvmVm<M>, _>(
                Error::NoSpace,
            ),
            created.ret >= 0 && guest_mem@.len() <= 0x1_0000_0000 ==> {
                &&& r is Ok
                &&& r->Ok_0.wf()
                &&& r->Ok_0@ == VmState::initial(guest_mem@)
                &&& r->Ok_0.mappings() == Map::<u32, M>::empty()
                &&& r->Ok_0.spec_as_raw_descriptor() == created.ret
                &&& r->Ok_0.spec_get_memory() == guest_mem
            },
    {
        let vm = match created.descriptor() {
            Ok(vm) => vm,
            Err(e) => {
                return Err(e);
            },
        };
        if guest_mem.num_regions() > 0x1_0000_0000 {
            return Err(Error::NoSpace);
        }
        let vm = KvmVm {
            vm,
            guest_mem,
            registered: 0,
            mem_regions: RegionMap::new(),
            mem_slot_gaps: SlotPool::new(),
        };
        proof {
            VmState::lemma_initial_wf(vm@.fixed);
        }
        Ok(vm)
    }

    /// The descriptor of the virtual machine.
    #[verifier::when_used_as_spec(spec_as_raw_descriptor)]
    pub fn as_raw_descriptor(&self) -> (fd: RawDescriptor)
        ensures
            fd == self.spec_as_raw_descriptor(),
    {
        self.vm
    }

    /// The guest memory that the machine was made over.
    pub fn get_memory(&self) -> (mem: &GuestMemory)
        ensures
            *mem == self.spec_get_memory(),
            mem@ == self@.fixed,
    {
        &self.guest_mem
    }

    /// What to ask the kernel next in order to register the fixed regions:
    /// region `k` goes under slot `k`, writable, without dirty-page logging,
    /// and the regions go in their order. `None` once the kernel has taken
    /// them all. Hand the kernel's answer to
    /// [`KvmVm::initial_region_registered`].
    pub fn initial_region_request(&self) -> (request: Option<UserMemoryRegion>)
        requires
            self.wf(),
        ensures
            request == self@.initial_request(),
    {
        proof {
            reveal(slots_dense);
        }
        if self.registered >= self.guest_mem.num_regions() {
            return None;
        }
        match self.guest_mem.region(self.registered as usize) {
            Some(region) => Some(
                set_user_memory_region(
                    self.registered as u32,
                    false,
                    false,
                    region.guest_base.offset(),
                    region.size,
                    region.host_addr,
                ),
            ),
            None => None,
        }
    }

    /// Takes the kernel's answer `ret` to the request of
    /// [`KvmVm::initial_region_request`]. A region that the kernel took
    /// counts as registered. Where the kernel refused, its error is returned
    /// and setting the machine up has failed; the regions that it took
    /// before stay registered.
    pub fn initial_region_registered(&mut self, ret: SysReturn) -> (r: Result<(), Error>)
        requires
            old(self).wf(),
        ensures
            final(self).wf(),
            (final(self)@, r) == old(self)@.initial_registered(ret),
            final(self).mappings() == old(self).mappings(),
            final(self).spec_as_raw_descriptor() == old(self).spec_as_raw_descriptor(),
            final(self).spec_get_memory() == old(self).spec_get_memory(),
    {
        if let Err(e) = ret.status() {
            return Err(e);
        }
        if self.registered < self.guest_mem.num_regions() {
            self.registered = self.registered + 1;
        }
        Ok(())
    }

    /// Whether the kernel has taken every fixed region.
    pub fn is_ready(&self) -> (ready: bool)
        ensures
            ready == self@.is_ready(),
    {
        self.registered == self.guest_mem.num_regions()
    }

    /// A handle on the virtual CPU with the given number.
    pub fn create_kvm_vcpu(&self, id: usize) -> (r: Result<KvmVcpu, Error>)
        ensures
            r == Ok::<KvmVcpu, Error>(KvmVcpu {  }),
    {
        Ok(KvmVcpu {  })
    }

    /// How to find out whether the machine has capability `c`. An answer of
    /// the platform, where it has one, stands. Otherwise dirty-page logging
    /// is always there, the paravirtual clock is not, and for its suspend
    /// control the kernel is to be asked.
    pub fn check_capability(&self, c: VmCap, platform: Option<bool>) -> (query: CapQuery)
        ensures
            query == (match platform {
                Some(val) => CapQuery::Known(val),
                None => match c {
                    VmCap::DirtyLog => CapQuery::Known(true),
                    VmCap::PvClock => CapQuery::Known(false),
                    VmCap::PvClockSuspend => CapQuery::Extension(KVM_CAP_KVMCLOCK_CTRL),
                },
            }),
    {
        if let Some(val) = platform {
            return CapQuery::Known(val);
        }
        match c {
            VmCap::DirtyLog => CapQuery::Known(true),
            VmCap::PvClock => CapQuery::Known(false),
            VmCap::PvClockSuspend => self.check_raw_capability(KVM_CAP_KVMCLOCK_CTRL),
        }
    }

    /// How to find out whether the kernel has the extension with number
    /// `cap`: by asking it.
    pub fn check_raw_capability(&self, cap: u32) -> (query: CapQuery)
        ensures
            query == CapQuery::Extension(cap),
    {
        CapQuery::Extension(cap)
    }

    /// Whether a registered region shares an address with `[start, end)`.
    fn active_overlap(&self, start: GuestAddress, end: GuestAddress) -> (overlap: bool)
        requires
            self.wf(),
        ensures
            overlap == self@.active_overlap(start.0 as int, end.0 as int),
    {
        proof {
            reveal(slots_dense);
            reveal(regions_disjoint);
            self.mem_slot_gaps.lemma_finite();
        }
        let base: u64 = self.guest_mem.num_regions();
        let count: u64 = self.mem_regions.len() as u64 + self.mem_slot_gaps.len() as u64;
        let mut id: u64 = base;
        while id < base + count
            invariant
                self.wf(),
                base == self@.base(),
                count == self@.active.dom().len() + self@.free.len(),
                base + count <= 0x1_0000_0000,
                base <= id <= base + count,
                forall|slot: u32|
                    self@.active.contains_key(slot) && slot < id ==> !(
                    #[trigger] self@.active[slot]).overlaps(start.0 as int, end.0 as int),
            decreases base + count - id,
        {
            if let Some(region) = self.mem_regions.get(id as u32) {
                proof {
                    reveal(regions_disjoint);
                }
                assert(self@.active[id as u32] == region);
                assert(region.end() <= u64::MAX);
                if region.guest_base.0 < end.0 && start.0 < region.guest_base.0 + region.size {
                    assert(self@.active[id as u32].overlaps(start.0 as int, end.0 as int));
                    return true;
                }
            }
            id += 1;
        }
        proof {
            reveal(slots_dense);
            assert forall|slot: u32| self@.active.contains_key(slot) implies !(
            #[trigger] self@.active[slot]).overlaps(start.0 as int, end.0 as int) by {
                assert(self@.active.dom().contains(slot));
            }
        }
        false
    }

    /// The slot that the next registration gets, or `None` where no slot
    /// identifier is left.
    pub fn next_slot(&self) -> (slot: Option<u32>)
        requires
            self.wf(),
        ensures
            slot == (if self@.next_slot() <= u32::MAX {
                Some(self@.next_slot() as u32)
            } else {
                None::<u32>
            }),
            slot is Some ==> is_smallest_inactive(
                self@.base(),
                self@.active.dom(),
                slot->Some_0 as int,
            ),
    {
        proof {
            reveal(slots_dense);
            lemma_next_slot_is_smallest_inactive(self@.base(), self@.active.dom(), self@.free);
        }
        match self.mem_slot_gaps.peek() {
            Some(gap) => {
                proof {
                    lemma_next_slot_is_smallest_free(
                        self@.base(),
                        self@.active.dom(),
                        self@.free,
                        gap,
                    );
                }
                Some(gap)
            },
            None => {
                let unused: u64 = self.mem_regions.len() as u64 + self.guest_mem.num_regions();
                if unused > 0xffff_ffff {
                    None
                } else {
                    Some(unused as u32)
                }
            },
        }
    }

    /// What to ask the kernel in order to register `mem` at `guest_addr`, or
    /// why the registration is refused before the kernel is asked. The slot
    /// of the request is the smallest identifier that is not active. Nothing
    /// changes yet: hand the kernel's answer to
    /// [`KvmVm::add_memory_region`].
    pub fn add_memory_region_request(
        &self,
        guest_addr: GuestAddress,
        mem: MappedRegion,
        read_only: bool,
        log_dirty_pages: bool,
    ) -> (r: Result<UserMemoryRegion, Error>)
        requires
            self.wf(),
        ensures
            r == self@.add_request(guest_addr, mem, read_only, log_dirty_pages),
            r is Ok ==> is_smallest_inactive(
                self@.base(),
                self@.active.dom(),
                r->Ok_0.slot as int,
            ),
    {
        proof {
            reveal(VmState::add_request);
        }
        let size = mem.size();
        let end_addr = match guest_addr.checked_add(size) {
            Some(end_addr) => end_addr,
            None => {
                return Err(Error::Overflow);
            },
        };
        if self.guest_mem.range_overlap(guest_addr, end_addr) {
            return Err(Error::NoSpace);
        }
        if self.active_overlap(guest_addr, end_addr) {
            return Err(Error::NoSpace);
        }
        let slot = match self.next_slot() {
            Some(slot) => slot,
            None => {
                return Err(Error::NoSpace);
            },
        };
        Ok(
            set_user_memory_region(
                slot,
                read_only,
                log_dirty_pages,
                guest_addr.offset(),
                size,
                mem.as_ptr(),
            ),
        )
    }

    /// Registers the mapping described by `mem` at `guest_addr`, given the
    /// kernel's answer `ret` to the request of
    /// [`KvmVm::add_memory_region_request`], and returns the slot of the
    /// registration. From then on the machine owns `mapping`, which is what
    /// keeps the host memory mapped, until the slot is removed. A
    /// registration that was refused before the kernel was asked fails with
    /// the same error, whatever `ret` holds, and changes nothing. Where the
    /// kernel refused, its error is passed on and the slot goes to the pool
    /// of free slots. A mapping that is not registered is let go.
    pub fn add_memory_region(
        &mut self,
        guest_addr: GuestAddress,
        mem: MappedRegion,
        mapping: M,
        read_only: bool,
        log_dirty_pages: bool,
        ret: SysReturn,
    ) -> (r: Result<u32, Error>)
        requires
            old(self).wf(),
        ensures
            final(self).wf(),
            (final(self)@, r) == old(self)@.add(guest_addr, mem, read_only, log_dirty_pages, ret),
            final(self).mappings() == (match r {
                Ok(slot) => old(self).mappings().insert(slot, mapping),
                Err(_) => old(self).mappings(),
            }),
            final(self).spec_as_raw_descriptor() == old(self).spec_as_raw_descriptor(),
            final(self).spec_get_memory() == old(self).spec_get_memory(),
            r is Ok ==> is_smallest_inactive(
                old(self)@.base(),
                old(self)@.active.dom(),
                r->Ok_0 as int,
            ),
    {
        let request = match self.add_memory_region_request(
            guest_addr,
            mem,
            read_only,
            log_dirty_pages,
        ) {
            Ok(request) => request,
            Err(e) => {
                return Err(e);
            },
        };
        proof {
            self@.lemma_add_request_slot(guest_addr, mem, read_only, log_dirty_pages);
            self@.lemma_add_wf(guest_addr, mem, read_only, log_dirty_pages, ret);
        }
        let slot = self.mem_slot_gaps.allocate_next(request.slot);
        assert(slot == request.slot);
        if let Err(e) = ret.status() {
            self.mem_slot_gaps.release(slot);
            assert(self@.free =~= old(self)@.free.insert(slot));
            return Err(e);
        }
        let region = MemoryRegion {
            guest_base: guest_addr,
            size: mem.size(),
            host_addr: mem.as_ptr(),
        };
        self.mem_regions.insert(slot, region, mapping);
        assert(self@.free =~= old(self)@.free.remove(slot));
        Ok(slot)
    }

    /// What to ask the kernel in order to remove the region under `slot`, or
    /// `NotFound` where the slot is not active. Nothing changes yet: hand the
    /// kernel's answer to [`KvmVm::remove_memory_region`].
    pub fn remove_memory_region_request(&self, slot: u32) -> (r: Result<UserMemoryRegion, Error>)
        ensures
            r == self@.remove_request(slot),
    {
        if !self.mem_regions.contains_key(slot) {
            return Err(Error::NotFound);
        }
        Ok(set_user_memory_region(slot, false, false, 0, 0, 0))
    }

    /// Removes the region under `slot`, given the kernel's answer `ret` to
    /// the request of [`KvmVm::remove_memory_region_request`]. Fails with
    /// `NotFound` where the slot is not active, whatever `ret` holds, and
    /// with the kernel's error where the kernel refused; neither changes
    /// anything. Otherwise the slot is free again, and the mapping that
    /// backed it is no longer owned: it is let go.
    pub fn remove_memory_region(&mut self, slot: u32, ret: SysReturn) -> (r: Result<(), Error>)
        requires
            old(self).wf(),
        ensures
            final(self).wf(),
            (final(self)@, r) == old(self)@.remove(slot, ret),
            final(self).mappings() == (match r {
                Ok(_) => old(self).mappings().remove(slot),
                Err(_) => old(self).mappings(),
            }),
            final(self).spec_as_raw_descriptor() == old(self).spec_as_raw_descriptor(),
            final(self).spec_get_memory() == old(self).spec_get_memory(),
    {
        if !self.mem_regions.contains_key(slot) {
            return Err(Error::NotFound);
        }
        if let Err(e) = ret.status() {
            return Err(e);
        }
        proof {
            self@.lemma_remove_wf(slot, ret);
        }
        self.mem_slot_gaps.release(slot);
        let _ = self.mem_regions.remove(slot);
        Ok(())
    }

    /// The host range to flush for `size` bytes from `offset` on of the
    /// region under `slot`, or why there is none: `NotFound` where the slot
    /// is not active, `BadAddress` where the bytes are not all inside the
    /// region. Hand the answer of the flush to
    /// [`KvmVm::msync_memory_region`].
    pub fn msync_memory_region_request(&self, slot: u32, offset: usize, size: usize) -> (r: Result<
        HostRange,
        Error,
    >)
        ensures
            r == self@.msync_request(slot, offset, size),
    {
        let region = match self.mem_regions.get(slot) {
            Some(region) => region,
            None => {
                return Err(Error::NotFound);
            },
        };
        let mem = MappedRegion::new(region.host_addr, region.size);
        match mem.msync(offset, size) {
            Ok(range) => Ok(range),
            Err(e) => Err(e.to_error()),
        }
    }

    /// Outcome of flushing `size` bytes from `offset` on of the region under
    /// `slot`, given the answer `ret` of the flush that
    /// [`KvmVm::msync_memory_region_request`] asked for. Where no flush was
    /// asked for, the reason is returned, whatever `ret` holds. A flush that
    /// failed is reported with its own error.
    pub fn msync_memory_region(&self, slot: u32, offset: usize, size: usize, ret: SysReturn) -> (r:
        Result<(), Error>)
        ensures
            r == (match self@.msync_request(slot, offset, size) {
                Err(e) => Err::<(), Error>(e),
                Ok(_) => match spec_msync_result(ret) {
                    Ok(_) => Ok(()),
                    Err(e) => Err(e.spec_to_error()),
                },
            }),
    {
        if let Err(e) = self.msync_memory_region_request(slot, offset, size) {
            return Err(e);
        }
        match msync_result(ret) {
            Ok(_) => Ok(()),
            Err(e) => Err(e.to_error()),
        }
    }

    /// What to ask the kernel in order to create a device of `kind`. The
    /// platform's own parameters, where it has some for this kind, stand.
    /// Otherwise a VFIO device is asked for by its type, and any other kind
    /// is not a device of this platform: `NoDevice`.
    pub fn create_device_request(&self, kind: DeviceKind, platform: Option<KvmCreateDevice>) -> (r:
        Result<KvmCreateDevice, Error>)
        ensures
            r == (match platform {
                Some(device) => Ok::<KvmCreateDevice, Error>(device),
                None => match kind {
                    DeviceKind::Vfio => Ok(
                        KvmCreateDevice { type_: KVM_DEV_TYPE_VFIO, fd: 0, flags: 0 },
                    ),
                    _ => Err(Error::NoDevice),
                },
            }),
    {
        if let Some(device) = platform {
            return Ok(device);
        }
        match kind {
            DeviceKind::Vfio => Ok(KvmCreateDevice { type_: KVM_DEV_TYPE_VFIO, fd: 0, flags: 0 }),
            _ => Err(Error::NoDevice),
        }
    }

    /// The descriptor of the device of `kind`, given the kernel's answer
    /// `ret` to the request of [`KvmVm::create_device_request`] and the
    /// descriptor field `fd` of the request as the kernel left it. Where no
    /// request could be made, the reason is returned, whatever `ret` holds.
    pub fn create_device(
        &self,
        kind: DeviceKind,
        platform: Option<KvmCreateDevice>,
        ret: SysReturn,
        fd: u32,
    ) -> (r: Result<RawDescriptor, Error>)
        ensures
            r == (match platform {
                None if kind != DeviceKind::Vfio => Err::<RawDescriptor, Error>(Error::NoDevice),
                _ => if ret.ret == 0 {
                    Ok(descriptor_of_bits(fd))
                } else {
                    Err(ret.spec_error())
                },
            }),
    {
        if let Err(e) = self.create_device_request(kind, platform) {
            return Err(e);
        }
        match ret.status() {
            Ok(_) => Ok(field_descriptor(fd)),
            Err(e) => Err(e),
        }
    }
}

} // verus!
