// The virtual machine context, driven against a stand-in for the kernel that
// answers requests the way the kernel's interface documents.

use std::collections::BTreeMap;

use hypervisor::abi::{KvmIrqfd, UserMemoryRegion, KVM_IRQFD_FLAG_DEASSIGN, KVM_IRQFD_FLAG_RESAMPLE};
use hypervisor::caps::{
    CapQuery, HypervisorCap, VmCap, KVM_CAP_KVMCLOCK_CTRL, KVM_CAP_S390_USER_SIGP,
    KVM_CAP_USER_MEMORY,
};
use hypervisor::guest_memory::{GuestAddress, GuestMemory};
use hypervisor::kvm::Kvm;
use hypervisor::mmap::{HostRange, MappedRegion};
use hypervisor::sys::{Error, RawDescriptor, SysReturn};
use hypervisor::vm::KvmVm;

// What stands for a host mapping: the machine holds on to it while its slot is active.
type Mapping = std::rc::Rc<()>;

type Vm = KvmVm<Mapping>;

const EBADF: i32 = 9;
const EBUSY: i32 = 16;
const EEXIST: i32 = 17;
const ENOENT: i32 = 2;

struct FakeKernel {
    next_descriptor: RawDescriptor,
    events: Vec<RawDescriptor>,
    irq_chip: bool,
    slots: BTreeMap<u32, (u64, u64)>,
    irqfds: Vec<(u32, u32)>,
}

impl FakeKernel {
    fn new() -> FakeKernel {
        FakeKernel {
            next_descriptor: 3,
            events: Vec::new(),
            irq_chip: false,
            slots: BTreeMap::new(),
            irqfds: Vec::new(),
        }
    }

    fn descriptor(&mut self) -> RawDescriptor {
        let fd = self.next_descriptor;
        self.next_descriptor += 1;
        fd
    }

    fn open(&mut self) -> SysReturn {
        SysReturn::success(self.descriptor())
    }

    fn create_vm(&mut self) -> SysReturn {
        SysReturn::success(self.descriptor())
    }

    fn event(&mut self) -> RawDescriptor {
        let fd = self.descriptor();
        self.events.push(fd);
        fd
    }

    fn check_extension(&self, extension: u32) -> i32 {
        if extension == KVM_CAP_USER_MEMORY || extension == KVM_CAP_KVMCLOCK_CTRL {
            1
        } else {
            0
        }
    }

    fn set_user_memory_region(&mut self, request: &UserMemoryRegion) -> SysReturn {
        if request.memory_size == 0 {
            self.slots.remove(&request.slot);
            return SysReturn::success(0);
        }
        let start = request.guest_phys_addr;
        let end = start + request.memory_size;
        for (slot, (base, size)) in self.slots.iter() {
            if *slot != request.slot && *base < end && start < *base + *size {
                return SysReturn::failure(EEXIST);
            }
        }
        self.slots.insert(request.slot, (start, request.memory_size));
        SysReturn::success(0)
    }

    fn create_irq_chip(&mut self) -> SysReturn {
        if self.irq_chip {
            return SysReturn::failure(EEXIST);
        }
        self.irq_chip = true;
        SysReturn::success(0)
    }

    fn is_event(&self, fd: u32) -> bool {
        self.events.iter().any(|event| *event as u32 == fd)
    }

    fn irqfd(&mut self, request: &KvmIrqfd) -> SysReturn {
        let pair = (request.gsi, request.fd);
        if request.flags & KVM_IRQFD_FLAG_DEASSIGN != 0 {
            return match self.irqfds.iter().position(|bound| *bound == pair) {
                Some(at) => {
                    self.irqfds.remove(at);
                    SysReturn::success(0)
                }
                None => SysReturn::failure(ENOENT),
            };
        }
        if !self.is_event(request.fd) {
            return SysReturn::failure(EBADF);
        }
        if request.flags & KVM_IRQFD_FLAG_RESAMPLE != 0 && !self.is_event(request.resamplefd) {
            return SysReturn::failure(EBADF);
        }
        if self.irqfds.contains(&pair) {
            return SysReturn::failure(EBUSY);
        }
        self.irqfds.push(pair);
        SysReturn::success(0)
    }

    fn msync(&self, _range: &HostRange) -> SysReturn {
        SysReturn::success(0)
    }
}

fn hypervisor_has(kernel: &FakeKernel, kvm: &Kvm, cap: &HypervisorCap) -> bool {
    let query = kvm.check_capability(cap);
    let ret = match query.extension() {
        Some(extension) => kernel.check_extension(extension),
        None => 0,
    };
    query.resolve(ret)
}

fn vm_has_raw(kernel: &FakeKernel, vm: &Vm, cap: u32) -> bool {
    let query = vm.check_raw_capability(cap);
    let ret = match query.extension() {
        Some(extension) => kernel.check_extension(extension),
        None => 0,
    };
    query.resolve(ret)
}

fn make_vm(kernel: &mut FakeKernel, ranges: &[(GuestAddress, u64)]) -> Vm {
    let kvm = Kvm::new(kernel.open()).unwrap();
    let gm = GuestMemory::new(ranges).unwrap();
    let mut vm = Vm::new(&kvm, gm, kernel.create_vm()).unwrap();
    while let Some(request) = vm.initial_region_request() {
        let ret = kernel.set_user_memory_region(&request);
        vm.initial_region_registered(ret).unwrap();
    }
    assert!(vm.is_ready());
    vm
}

fn add_region(
    kernel: &mut FakeKernel,
    vm: &mut Vm,
    guest_addr: GuestAddress,
    mem: MappedRegion,
    read_only: bool,
    log_dirty_pages: bool,
) -> Result<u32, Error> {
    add_mapping(kernel, vm, guest_addr, mem, Mapping::new(()), read_only, log_dirty_pages)
}

fn add_mapping(
    kernel: &mut FakeKernel,
    vm: &mut Vm,
    guest_addr: GuestAddress,
    mem: MappedRegion,
    mapping: Mapping,
    read_only: bool,
    log_dirty_pages: bool,
) -> Result<u32, Error> {
    let ret = match vm.add_memory_region_request(guest_addr, mem, read_only, log_dirty_pages) {
        Ok(request) => kernel.set_user_memory_region(&request),
        Err(_) => SysReturn::success(0),
    };
    vm.add_memory_region(guest_addr, mem, mapping, read_only, log_dirty_pages, ret)
}

fn remove_region(kernel: &mut FakeKernel, vm: &mut Vm, slot: u32) -> Result<(), Error> {
    let ret = match vm.remove_memory_region_request(slot) {
        Ok(request) => kernel.set_user_memory_region(&request),
        Err(_) => SysReturn::success(0),
    };
    vm.remove_memory_region(slot, ret)
}

fn sync_region(
    kernel: &FakeKernel,
    vm: &Vm,
    slot: u32,
    offset: usize,
    size: usize,
) -> Result<(), Error> {
    let ret = match vm.msync_memory_region_request(slot, offset, size) {
        Ok(range) => kernel.msync(&range),
        Err(_) => SysReturn::success(0),
    };
    vm.msync_memory_region(slot, offset, size, ret)
}

fn register(
    kernel: &mut FakeKernel,
    vm: &Vm,
    gsi: u32,
    evt: RawDescriptor,
    resample_evt: Option<RawDescriptor>,
) -> Result<(), Error> {
    let ret = kernel.irqfd(&vm.register_irqfd_request(gsi, evt, resample_evt));
    vm.register_irqfd(gsi, evt, resample_evt, ret)
}

fn unregister(
    kernel: &mut FakeKernel,
    vm: &Vm,
    gsi: u32,
    evt: RawDescriptor,
) -> Result<(), Error> {
    let ret = kernel.irqfd(&vm.unregister_irqfd_request(gsi, evt));
    vm.unregister_irqfd(gsi, evt, ret)
}

fn mapping(host_addr: u64, size: u64) -> MappedRegion {
    MappedRegion::new(host_addr, size)
}

#[test]
fn new() {
    let mut kernel = FakeKernel::new();
    Kvm::new(kernel.open()).unwrap();
}

#[test]
fn device_is_opened_read_write_and_closed_on_exec() {
    let request = Kvm::open_request();
    assert_eq!(request.path, "/dev/kvm");
    assert!(request.read_write);
    assert!(request.close_on_exec);
}

#[test]
fn new_reports_the_error_of_open() {
    assert_eq!(Kvm::new(SysReturn::failure(ENOENT)), Err(Error::Sys(ENOENT)));
    let kvm = Kvm::new(SysReturn::success(0)).unwrap();
    assert_eq!(kvm.as_raw_descriptor(), 0);
}

#[test]
fn check_capability() {
    let mut kernel = FakeKernel::new();
    let kvm = Kvm::new(kernel.open()).unwrap();
    assert!(hypervisor_has(&kernel, &kvm, &HypervisorCap::UserMemory));
    assert!(!hypervisor_has(&kernel, &kvm, &HypervisorCap::S390UserSigp));
}

#[test]
fn check_capability_asks_for_the_extension_of_the_kernel() {
    let kvm = Kvm::new(SysReturn::success(3)).unwrap();
    assert_eq!(kvm.check_capability(&HypervisorCap::UserMemory), CapQuery::Extension(3));
    assert_eq!(kvm.check_capability(&HypervisorCap::TscDeadlineTimer), CapQuery::Extension(72));
    assert_eq!(kvm.check_capability(&HypervisorCap::S390UserSigp), CapQuery::Extension(106));
    assert_eq!(kvm.check_capability(&HypervisorCap::ArmPmuV3), CapQuery::Extension(126));
    assert_eq!(kvm.check_capability(&HypervisorCap::ImmediateExit), CapQuery::Extension(136));
}

#[test]
fn capability_without_a_kernel_name_is_absent() {
    let query = CapQuery::of_kvm_cap(Err(Error::InvalidArgument));
    assert_eq!(query, CapQuery::Known(false));
    assert_eq!(query.extension(), None);
    assert!(!query.resolve(1));
    assert!(!query.resolve(0));
}

#[test]
fn extension_is_present_only_on_answer_one() {
    let query = CapQuery::Extension(KVM_CAP_USER_MEMORY);
    assert!(query.resolve(1));
    assert!(!query.resolve(0));
    assert!(!query.resolve(2));
    assert!(!query.resolve(-1));
}

#[test]
fn create_vm() {
    let mut kernel = FakeKernel::new();
    let kvm = Kvm::new(kernel.open()).unwrap();
    let gm = GuestMemory::new(&[(GuestAddress(0), 0x1000)]).unwrap();
    Vm::new(&kvm, gm, kernel.create_vm()).unwrap();
}

#[test]
fn create_vm_reports_the_error_of_the_kernel() {
    let kvm = Kvm::new(SysReturn::success(3)).unwrap();
    let gm = GuestMemory::new(&[(GuestAddress(0), 0x1000)]).unwrap();
    assert_eq!(Vm::new(&kvm, gm, SysReturn::failure(12)), Err(Error::Sys(12)));
}

#[test]
fn create_vm_registers_the_fixed_regions_in_order() {
    let kvm = Kvm::new(SysReturn::success(3)).unwrap();
    let gm = GuestMemory::from_regions(vec![
        hypervisor::guest_memory::MemoryRegion {
            guest_base: GuestAddress(0),
            size: 0x1000,
            host_addr: 0x7000_0000,
        },
        hypervisor::guest_memory::MemoryRegion {
            guest_base: GuestAddress(0x5000),
            size: 0x5000,
            host_addr: 0x7100_0000,
        },
    ])
    .unwrap();
    let mut vm = Vm::new(&kvm, gm, SysReturn::success(4)).unwrap();
    assert_eq!(vm.as_raw_descriptor(), 4);
    assert!(!vm.is_ready());
    let first = UserMemoryRegion {
        slot: 0,
        flags: 0,
        guest_phys_addr: 0,
        memory_size: 0x1000,
        userspace_addr: 0x7000_0000,
    };
    let second = UserMemoryRegion {
        slot: 1,
        flags: 0,
        guest_phys_addr: 0x5000,
        memory_size: 0x5000,
        userspace_addr: 0x7100_0000,
    };
    assert_eq!(vm.initial_region_request(), Some(first));
    assert_eq!(vm.initial_region_registered(SysReturn::success(0)), Ok(()));
    assert_eq!(vm.initial_region_request(), Some(second));
    // a refusal is the failure of the setup, and what was registered stays
    assert_eq!(vm.initial_region_registered(SysReturn::failure(EEXIST)), Err(Error::Sys(EEXIST)));
    assert_eq!(vm.initial_region_request(), Some(second));
    assert!(!vm.is_ready());
    assert_eq!(vm.initial_region_registered(SysReturn::success(0)), Ok(()));
    assert_eq!(vm.initial_region_request(), None);
    assert!(vm.is_ready());
    assert_eq!(vm.initial_region_registered(SysReturn::success(0)), Ok(()));
    assert!(vm.is_ready());
}

#[test]
fn create_vm_over_no_memory() {
    let kvm = Kvm::new(SysReturn::success(3)).unwrap();
    let vm = Vm::new(&kvm, GuestMemory::new(&[]).unwrap(), SysReturn::success(4)).unwrap();
    assert!(vm.is_ready());
    assert_eq!(vm.initial_region_request(), None);
    assert_eq!(vm.next_slot(), Some(0));
}

#[test]
fn send_vm() {
    fn is_send<T: Send>() {}
    is_send::<KvmVm<Box<u8>>>();
    is_send::<Kvm>();
}

#[test]
fn check_vm_capability() {
    let mut kernel = FakeKernel::new();
    let vm = make_vm(&mut kernel, &[(GuestAddress(0), 0x1000)]);
    assert!(vm_has_raw(&kernel, &vm, KVM_CAP_USER_MEMORY));
    assert!(!vm_has_raw(&kernel, &vm, KVM_CAP_S390_USER_SIGP));
}

#[test]
fn check_vm_capability_table() {
    let mut kernel = FakeKernel::new();
    let vm = make_vm(&mut kernel, &[(GuestAddress(0), 0x1000)]);
    assert_eq!(vm.check_capability(VmCap::DirtyLog, None), CapQuery::Known(true));
    assert_eq!(vm.check_capability(VmCap::PvClock, None), CapQuery::Known(false));
    assert_eq!(vm.check_capability(VmCap::PvClockSuspend, None), CapQuery::Extension(76));
    assert_eq!(vm.check_capability(VmCap::PvClock, Some(true)), CapQuery::Known(true));
    assert_eq!(vm.check_capability(VmCap::DirtyLog, Some(false)), CapQuery::Known(false));
}

#[test]
fn get_memory() {
    let mut kernel = FakeKernel::new();
    let vm = make_vm(&mut kernel, &[(GuestAddress(0), 0x1000)]);
    let gm = GuestMemory::new(&[(GuestAddress(0), 0x1000)]).unwrap();
    assert_eq!(*vm.get_memory(), gm);
    assert_eq!(vm.get_memory().num_regions(), 1);
    assert_eq!(vm.get_memory().memory_size(), 0x1000);
}

#[test]
fn add_memory() {
    let mut kernel = FakeKernel::new();
    let mut vm = make_vm(
        &mut kernel,
        &[(GuestAddress(0), 0x1000), (GuestAddress(0x5000), 0x5000)],
    );
    let mem_size = 0x1000;
    let mem = mapping(0x7f00_0000, mem_size);
    add_region(&mut kernel, &mut vm, GuestAddress(0x1000), mem, false, false).unwrap();
    let mem = mapping(0x7f10_0000, mem_size);
    add_region(&mut kernel, &mut vm, GuestAddress(0x10000), mem, false, false).unwrap();
}

#[test]
fn add_memory_ro() {
    let mut kernel = FakeKernel::new();
    let mut vm = make_vm(&mut kernel, &[(GuestAddress(0), 0x1000)]);
    let mem_size = 0x1000;
    let mem = mapping(0x7f00_0000, mem_size);
    add_region(&mut kernel, &mut vm, GuestAddress(0x1000), mem, true, false).unwrap();
}

#[test]
fn add_memory_request_carries_flags_and_addresses() {
    let mut kernel = FakeKernel::new();
    let vm = make_vm(&mut kernel, &[(GuestAddress(0), 0x1000)]);
    let mem = mapping(0x7f00_0000, 0x2000);
    let flags = [(false, false, 0), (false, true, 1), (true, false, 2), (true, true, 3)];
    for (read_only, log_dirty_pages, expected) in flags {
        assert_eq!(
            vm.add_memory_region_request(GuestAddress(0x1000), mem, read_only, log_dirty_pages),
            Ok(UserMemoryRegion {
                slot: 1,
                flags: expected,
                guest_phys_addr: 0x1000,
                memory_size: 0x2000,
                userspace_addr: 0x7f00_0000,
            })
        );
    }
}

#[test]
fn remove_memory() {
    let mut kernel = FakeKernel::new();
    let mut vm = make_vm(&mut kernel, &[(GuestAddress(0), 0x1000)]);
    let mem_size = 0x1000;
    let mem = mapping(0x7f00_0000, mem_size);
    let slot = add_region(&mut kernel, &mut vm, GuestAddress(0x1000), mem, false, false).unwrap();
    remove_region(&mut kernel, &mut vm, slot).unwrap();
}

#[test]
fn remove_memory_asks_to_clear_the_slot() {
    let mut kernel = FakeKernel::new();
    let mut vm = make_vm(&mut kernel, &[(GuestAddress(0), 0x1000)]);
    let mem = mapping(0x7f00_0000, 0x1000);
    let slot = add_region(&mut kernel, &mut vm, GuestAddress(0x1000), mem, false, false).unwrap();
    assert_eq!(
        vm.remove_memory_region_request(slot),
        Ok(UserMemoryRegion {
            slot,
            flags: 0,
            guest_phys_addr: 0,
            memory_size: 0,
            userspace_addr: 0,
        })
    );
}

#[test]
fn remove_invalid_memory() {
    let mut kernel = FakeKernel::new();
    let mut vm = make_vm(&mut kernel, &[(GuestAddress(0), 0x1000)]);
    assert!(remove_region(&mut kernel, &mut vm, 0).is_err());
}

#[test]
fn remove_unknown_or_removed_slot_is_not_found() {
    let mut kernel = FakeKernel::new();
    let mut vm = make_vm(&mut kernel, &[(GuestAddress(0), 0x1000)]);
    assert_eq!(remove_region(&mut kernel, &mut vm, 0), Err(Error::NotFound));
    assert_eq!(remove_region(&mut kernel, &mut vm, 7), Err(Error::NotFound));
    let mem = mapping(0x7f00_0000, 0x1000);
    let slot = add_region(&mut kernel, &mut vm, GuestAddress(0x1000), mem, false, false).unwrap();
    assert_eq!(remove_region(&mut kernel, &mut vm, slot), Ok(()));
    assert_eq!(remove_region(&mut kernel, &mut vm, slot), Err(Error::NotFound));
    assert_eq!(vm.remove_memory_region(slot, SysReturn::failure(5)), Err(Error::NotFound));
}

#[test]
fn remove_refused_by_the_kernel_keeps_the_slot() {
    let mut kernel = FakeKernel::new();
    let mut vm = make_vm(&mut kernel, &[(GuestAddress(0), 0x1000)]);
    let mem = mapping(0x7f00_0000, 0x1000);
    let slot = add_region(&mut kernel, &mut vm, GuestAddress(0x1000), mem, false, false).unwrap();
    assert_eq!(vm.remove_memory_region(slot, SysReturn::failure(22)), Err(Error::Sys(22)));
    assert_eq!(remove_region(&mut kernel, &mut vm, slot), Ok(()));
}

#[test]
fn overlap_memory() {
    let mut kernel = FakeKernel::new();
    let mut vm = make_vm(&mut kernel, &[(GuestAddress(0), 0x10000)]);
    let mem_size = 0x2000;
    let mem = mapping(0x7f00_0000, mem_size);
    assert!(add_region(&mut kernel, &mut vm, GuestAddress(0x2000), mem, false, false).is_err());
}

#[test]
fn overlap_is_refused_and_changes_nothing() {
    let mut kernel = FakeKernel::new();
    let mut vm = make_vm(&mut kernel, &[(GuestAddress(0), 0x10000)]);
    let mem = mapping(0x7f00_0000, 0x2000);
    // over a fixed region
    assert_eq!(
        add_region(&mut kernel, &mut vm, GuestAddress(0x2000), mem, false, false),
        Err(Error::NoSpace)
    );
    assert_eq!(
        add_region(&mut kernel, &mut vm, GuestAddress(0xf000), mem, false, false),
        Err(Error::NoSpace)
    );
    // touching is no overlap
    assert_eq!(
        add_region(&mut kernel, &mut vm, GuestAddress(0x10000), mem, false, false),
        Ok(1)
    );
    // over a region added before
    assert_eq!(
        add_region(&mut kernel, &mut vm, GuestAddress(0x11000), mem, false, false),
        Err(Error::NoSpace)
    );
    assert_eq!(vm.next_slot(), Some(2));
    assert_eq!(
        add_region(&mut kernel, &mut vm, GuestAddress(0x12000), mem, false, false),
        Ok(2)
    );
}

#[test]
fn region_past_the_address_space_overflows() {
    let mut kernel = FakeKernel::new();
    let mut vm = make_vm(&mut kernel, &[(GuestAddress(0), 0x1000)]);
    let mem = mapping(0x7f00_0000, 0x2000);
    assert_eq!(
        add_region(&mut kernel, &mut vm, GuestAddress(u64::MAX - 0x1000), mem, false, false),
        Err(Error::Overflow)
    );
    let mem = mapping(0x7f00_0000, 0x1000);
    assert_eq!(
        add_region(&mut kernel, &mut vm, GuestAddress(u64::MAX - 0x1000), mem, false, false),
        Ok(1)
    );
}

#[test]
fn slots_are_dense_and_reused() {
    let mut kernel = FakeKernel::new();
    let mut vm = make_vm(
        &mut kernel,
        &[(GuestAddress(0), 0x1000), (GuestAddress(0x5000), 0x5000)],
    );
    let mem = mapping(0x7f00_0000, 0x1000);
    assert_eq!(add_region(&mut kernel, &mut vm, GuestAddress(0x1000), mem, false, false), Ok(2));
    assert_eq!(add_region(&mut kernel, &mut vm, GuestAddress(0x10000), mem, false, false), Ok(3));
    assert_eq!(remove_region(&mut kernel, &mut vm, 2), Ok(()));
    assert_eq!(add_region(&mut kernel, &mut vm, GuestAddress(0x2000), mem, false, false), Ok(2));
}

#[test]
fn smallest_free_slot_comes_first() {
    let mut kernel = FakeKernel::new();
    let mut vm = make_vm(&mut kernel, &[(GuestAddress(0), 0x1000)]);
    let mem = mapping(0x7f00_0000, 0x1000);
    for i in 0..5u64 {
        let addr = GuestAddress(0x10000 + i * 0x1000);
        assert_eq!(add_region(&mut kernel, &mut vm, addr, mem, false, false), Ok(1 + i as u32));
    }
    assert_eq!(remove_region(&mut kernel, &mut vm, 4), Ok(()));
    assert_eq!(remove_region(&mut kernel, &mut vm, 2), Ok(()));
    assert_eq!(remove_region(&mut kernel, &mut vm, 3), Ok(()));
    assert_eq!(add_region(&mut kernel, &mut vm, GuestAddress(0x20000), mem, false, false), Ok(2));
    assert_eq!(add_region(&mut kernel, &mut vm, GuestAddress(0x21000), mem, false, false), Ok(3));
    assert_eq!(add_region(&mut kernel, &mut vm, GuestAddress(0x22000), mem, false, false), Ok(4));
    assert_eq!(add_region(&mut kernel, &mut vm, GuestAddress(0x23000), mem, false, false), Ok(6));
}

#[test]
fn registration_refused_by_the_kernel_frees_its_slot() {
    let mut kernel = FakeKernel::new();
    let mut vm = make_vm(&mut kernel, &[(GuestAddress(0), 0x1000)]);
    let mem = mapping(0x7f00_0000, 0x1000);
    let failed = SysReturn::failure(EEXIST);
    assert_eq!(
        vm.add_memory_region(GuestAddress(0x1000), mem, Mapping::new(()), false, false, failed),
        Err(Error::Sys(EEXIST))
    );
    assert_eq!(vm.next_slot(), Some(1));
    assert_eq!(vm.remove_memory_region_request(1), Err(Error::NotFound));
    assert_eq!(add_region(&mut kernel, &mut vm, GuestAddress(0x1000), mem, false, false), Ok(1));
    assert_eq!(vm.next_slot(), Some(2));
}

#[test]
fn mapping_is_owned_while_its_slot_is_active() {
    let mut kernel = FakeKernel::new();
    let mut vm = make_vm(&mut kernel, &[(GuestAddress(0), 0x1000)]);
    let mem = mapping(0x7f00_0000, 0x1000);
    let held = Mapping::new(());
    assert_eq!(Mapping::strong_count(&held), 1);
    let slot =
        add_mapping(&mut kernel, &mut vm, GuestAddress(0x1000), mem, held.clone(), false, false)
            .unwrap();
    assert_eq!(Mapping::strong_count(&held), 2);
    // a refused removal keeps it
    assert_eq!(vm.remove_memory_region(slot, SysReturn::failure(22)), Err(Error::Sys(22)));
    assert_eq!(Mapping::strong_count(&held), 2);
    // a refused registration lets its mapping go
    assert_eq!(
        add_mapping(&mut kernel, &mut vm, GuestAddress(0x1800), mem, held.clone(), false, false),
        Err(Error::NoSpace)
    );
    assert_eq!(Mapping::strong_count(&held), 2);
    let failed = SysReturn::failure(EEXIST);
    assert_eq!(
        vm.add_memory_region(GuestAddress(0x4000), mem, held.clone(), false, false, failed),
        Err(Error::Sys(EEXIST))
    );
    assert_eq!(Mapping::strong_count(&held), 2);
    remove_region(&mut kernel, &mut vm, slot).unwrap();
    assert_eq!(Mapping::strong_count(&held), 1);
    // what the machine still owns goes with it
    add_mapping(&mut kernel, &mut vm, GuestAddress(0x1000), mem, held.clone(), false, false)
        .unwrap();
    assert_eq!(Mapping::strong_count(&held), 2);
    drop(vm);
    assert_eq!(Mapping::strong_count(&held), 1);
}

#[test]
fn sync_memory() {
    let mut kernel = FakeKernel::new();
    let mut vm = make_vm(
        &mut kernel,
        &[(GuestAddress(0), 0x1000), (GuestAddress(0x5000), 0x5000)],
    );
    let mem_size = 0x1000;
    let mem = mapping(0x7f00_0000, mem_size as u64);
    let slot = add_region(&mut kernel, &mut vm, GuestAddress(0x1000), mem, false, false).unwrap();
    sync_region(&kernel, &vm, slot, mem_size, 0).unwrap();
    assert!(sync_region(&kernel, &vm, slot, mem_size + 1, 0).is_err());
    assert!(sync_region(&kernel, &vm, slot + 1, mem_size, 0).is_err());
}

#[test]
fn sync_memory_range_and_errors() {
    let mut kernel = FakeKernel::new();
    let mut vm = make_vm(&mut kernel, &[(GuestAddress(0), 0x1000)]);
    let mem = mapping(0x7f00_0000, 0x3000);
    let slot = add_region(&mut kernel, &mut vm, GuestAddress(0x1000), mem, false, false).unwrap();
    assert_eq!(
        vm.msync_memory_region_request(slot, 0x1000, 0x2000),
        Ok(HostRange { addr: 0x7f00_1000, len: 0x2000 })
    );
    assert_eq!(vm.msync_memory_region_request(slot, 0x1000, 0x2001), Err(Error::BadAddress));
    assert_eq!(vm.msync_memory_region_request(slot, usize::MAX, 2), Err(Error::BadAddress));
    assert_eq!(vm.msync_memory_region_request(slot + 1, 0, 0), Err(Error::NotFound));
    assert_eq!(vm.msync_memory_region(slot, 0, 0x1000, SysReturn::success(0)), Ok(()));
    assert_eq!(
        vm.msync_memory_region(slot, 0, 0x1000, SysReturn::failure(22)),
        Err(Error::Sys(22))
    );
    assert_eq!(
        vm.msync_memory_region(slot, 0x3000, 1, SysReturn::success(0)),
        Err(Error::BadAddress)
    );
    assert_eq!(
        vm.msync_memory_region(slot + 1, 0, 1, SysReturn::success(0)),
        Err(Error::NotFound)
    );
}

#[test]
fn register_irqfd() {
    let mut kernel = FakeKernel::new();
    let vm = make_vm(&mut kernel, &vec![(GuestAddress(0), 0x10000)]);
    let evtfd1 = kernel.event();
    let evtfd2 = kernel.event();
    let evtfd3 = kernel.event();
    vm.create_irq_chip(kernel.create_irq_chip()).unwrap();
    register(&mut kernel, &vm, 4, evtfd1, None).unwrap();
    register(&mut kernel, &vm, 8, evtfd2, None).unwrap();
    register(&mut kernel, &vm, 4, evtfd3, None).unwrap();
    register(&mut kernel, &vm, 4, evtfd3, None).unwrap_err();
}

#[test]
fn unregister_irqfd() {
    let mut kernel = FakeKernel::new();
    let vm = make_vm(&mut kernel, &vec![(GuestAddress(0), 0x10000)]);
    let evtfd1 = kernel.event();
    let evtfd2 = kernel.event();
    let evtfd3 = kernel.event();
    vm.create_irq_chip(kernel.create_irq_chip()).unwrap();
    register(&mut kernel, &vm, 4, evtfd1, None).unwrap();
    register(&mut kernel, &vm, 8, evtfd2, None).unwrap();
    register(&mut kernel, &vm, 4, evtfd3, None).unwrap();
    unregister(&mut kernel, &vm, 4, evtfd1).unwrap();
    unregister(&mut kernel, &vm, 8, evtfd2).unwrap();
    unregister(&mut kernel, &vm, 4, evtfd3).unwrap();
}

#[test]
fn unregister_irqfd_that_was_never_registered() {
    let mut kernel = FakeKernel::new();
    let vm = make_vm(&mut kernel, &vec![(GuestAddress(0), 0x10000)]);
    let evtfd1 = kernel.event();
    vm.create_irq_chip(kernel.create_irq_chip()).unwrap();
    assert_eq!(unregister(&mut kernel, &vm, 4, evtfd1), Err(Error::Sys(ENOENT)));
}

#[test]
fn irqfd_resample() {
    let mut kernel = FakeKernel::new();
    let vm = make_vm(&mut kernel, &vec![(GuestAddress(0), 0x10000)]);
    let evtfd1 = kernel.event();
    let evtfd2 = kernel.event();
    vm.create_irq_chip(kernel.create_irq_chip()).unwrap();
    register(&mut kernel, &vm, 4, evtfd1, Some(evtfd2)).unwrap();
    unregister(&mut kernel, &vm, 4, evtfd1).unwrap();
    // The request has to carry the resample event for this to fail.
    register(&mut kernel, &vm, 4, evtfd1, Some(-1)).unwrap_err();
}

#[test]
fn irqfd_requests() {
    let vm = make_vm(&mut FakeKernel::new(), &[(GuestAddress(0), 0x1000)]);
    assert_eq!(
        vm.register_irqfd_request(4, 7, None),
        KvmIrqfd { fd: 7, gsi: 4, flags: 0, resamplefd: 0 }
    );
    assert_eq!(
        vm.register_irqfd_request(4, 7, Some(9)),
        KvmIrqfd { fd: 7, gsi: 4, flags: 2, resamplefd: 9 }
    );
    assert_eq!(
        vm.register_irqfd_request(4, 7, Some(-1)),
        KvmIrqfd { fd: 7, gsi: 4, flags: 2, resamplefd: 0xffff_ffff }
    );
    assert_eq!(
        vm.unregister_irqfd_request(5, 8),
        KvmIrqfd { fd: 8, gsi: 5, flags: 1, resamplefd: 0 }
    );
}

#[test]
fn create_irq_chip_passes_the_answer_on() {
    let mut kernel = FakeKernel::new();
    let vm = make_vm(&mut kernel, &[(GuestAddress(0), 0x1000)]);
    assert_eq!(vm.create_irq_chip(kernel.create_irq_chip()), Ok(()));
    assert_eq!(vm.create_irq_chip(kernel.create_irq_chip()), Err(Error::Sys(EEXIST)));
}
