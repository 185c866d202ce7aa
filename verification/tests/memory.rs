use hypervisor::guest_memory::{
    GuestAddress, GuestMemory, GuestMemoryError, MemoryRegion, RegionOffset,
};
use hypervisor::mmap::{msync_result, HostRange, MappedRegion, MmapError};
use hypervisor::slots::SlotPool;
use hypervisor::sys::{Error, SysReturn};

#[test]
fn guest_address_adds_within_range() {
    assert_eq!(GuestAddress(0x1000).offset(), 0x1000);
    assert_eq!(GuestAddress(0x1000).checked_add(0x234), Some(GuestAddress(0x1234)));
    assert_eq!(GuestAddress(u64::MAX - 1).checked_add(1), Some(GuestAddress(u64::MAX)));
    assert_eq!(GuestAddress(u64::MAX - 1).checked_add(2), None);
}

#[test]
fn guest_memory_takes_ordered_regions() {
    let gm =
        GuestMemory::new(&[(GuestAddress(0), 0x1000), (GuestAddress(0x5000), 0x5000)]).unwrap();
    assert_eq!(gm.num_regions(), 2);
    assert_eq!(gm.memory_size(), 0x6000);
    assert_eq!(
        gm.region(1),
        Some(MemoryRegion { guest_base: GuestAddress(0x5000), size: 0x5000, host_addr: 0 })
    );
    assert_eq!(gm.region(2), None);
    let empty = GuestMemory::new(&[]).unwrap();
    assert_eq!(empty.num_regions(), 0);
    assert_eq!(empty.memory_size(), 0);
    // regions may touch
    GuestMemory::new(&[(GuestAddress(0), 0x1000), (GuestAddress(0x1000), 0x1000)]).unwrap();
    // the last region may end at the end of the address space
    GuestMemory::new(&[(GuestAddress(u64::MAX - 0xfff), 0xfff)]).unwrap();
}

#[test]
fn guest_memory_refuses_overlap_and_disorder() {
    assert_eq!(
        GuestMemory::new(&[(GuestAddress(0), 0x2000), (GuestAddress(0x1000), 0x1000)]),
        Err(GuestMemoryError::MemoryRegionOverlap)
    );
    assert_eq!(
        GuestMemory::new(&[(GuestAddress(0x5000), 0x1000), (GuestAddress(0), 0x1000)]),
        Err(GuestMemoryError::MemoryRegionOverlap)
    );
    assert_eq!(
        GuestMemory::new(&[(GuestAddress(u64::MAX), 2)]),
        Err(GuestMemoryError::MemoryRegionOverlap)
    );
    assert_eq!(
        GuestMemory::from_regions(vec![
            MemoryRegion { guest_base: GuestAddress(0), size: 0x2000, host_addr: 0x1000 },
            MemoryRegion { guest_base: GuestAddress(0x1fff), size: 1, host_addr: 0x9000 },
        ]),
        Err(GuestMemoryError::MemoryRegionOverlap)
    );
}

#[test]
fn range_overlap_is_exact_at_the_edges() {
    let gm = GuestMemory::new(&[(GuestAddress(0x1000), 0x1000), (GuestAddress(0x5000), 0x1000)])
        .unwrap();
    assert!(!gm.range_overlap(GuestAddress(0), GuestAddress(0x1000)));
    assert!(gm.range_overlap(GuestAddress(0), GuestAddress(0x1001)));
    assert!(gm.range_overlap(GuestAddress(0x1fff), GuestAddress(0x2000)));
    assert!(!gm.range_overlap(GuestAddress(0x2000), GuestAddress(0x5000)));
    assert!(gm.range_overlap(GuestAddress(0x2000), GuestAddress(0x5001)));
    assert!(gm.range_overlap(GuestAddress(0), GuestAddress(u64::MAX)));
    assert!(!gm.range_overlap(GuestAddress(0x6000), GuestAddress(u64::MAX)));
}

#[test]
fn places_in_guest_memory() {
    let gm = GuestMemory::new(&[(GuestAddress(0x1000), 0x1000), (GuestAddress(0x5000), 0x2000)])
        .unwrap();
    assert_eq!(gm.locate(GuestAddress(0)), None);
    assert_eq!(gm.locate(GuestAddress(0xfff)), None);
    assert_eq!(
        gm.locate(GuestAddress(0x1000)),
        Some(RegionOffset { index: 0, offset: 0, available: 0x1000 })
    );
    assert_eq!(
        gm.locate(GuestAddress(0x1fff)),
        Some(RegionOffset { index: 0, offset: 0xfff, available: 1 })
    );
    assert_eq!(gm.locate(GuestAddress(0x2000)), None);
    assert_eq!(
        gm.locate(GuestAddress(0x5800)),
        Some(RegionOffset { index: 1, offset: 0x800, available: 0x1800 })
    );
    assert_eq!(gm.locate(GuestAddress(0x7000)), None);
    assert_eq!(gm.locate(GuestAddress(u64::MAX)), None);
}

#[test]
fn pool_hands_out_the_smallest_first() {
    let mut pool = SlotPool::new();
    assert!(pool.is_empty());
    assert_eq!(pool.peek(), None);
    assert_eq!(pool.allocate_next(5), 5);
    assert!(pool.is_empty());
    pool.release(7);
    pool.release(3);
    pool.release(9);
    pool.release(3);
    assert_eq!(pool.len(), 3);
    assert!(pool.contains(7));
    assert!(!pool.contains(4));
    assert_eq!(pool.peek(), Some(3));
    assert_eq!(pool.allocate_next(100), 3);
    assert_eq!(pool.allocate_next(100), 7);
    assert_eq!(pool.allocate_next(100), 9);
    assert_eq!(pool.allocate_next(100), 100);
    assert_eq!(pool.len(), 0);
}

#[test]
fn mapping_flush_range() {
    let mem = MappedRegion::new(0x7000, 0x1000);
    assert_eq!(mem.as_ptr(), 0x7000);
    assert_eq!(mem.size(), 0x1000);
    assert_eq!(mem.msync(0, 0x1000), Ok(HostRange { addr: 0x7000, len: 0x1000 }));
    assert_eq!(mem.msync(0x1000, 0), Ok(HostRange { addr: 0x8000, len: 0 }));
    assert_eq!(mem.msync(0x1001, 0), Err(MmapError::InvalidAddress));
    assert_eq!(mem.msync(0x800, 0x801), Err(MmapError::InvalidAddress));
    assert_eq!(mem.msync(usize::MAX, 1), Err(MmapError::InvalidAddress));
    let high = MappedRegion::new(u64::MAX - 0x10, 0x1000);
    assert_eq!(high.msync(0x11, 1), Err(MmapError::InvalidAddress));
}

#[test]
fn mapping_errors_keep_their_meaning() {
    assert_eq!(MmapError::InvalidAddress.to_error(), Error::BadAddress);
    assert_eq!(MmapError::NotPageAligned.to_error(), Error::InvalidArgument);
    assert_eq!(MmapError::SystemCallFailed(Error::Sys(12)).to_error(), Error::Sys(12));
    assert_eq!(MmapError::InvalidOffset.to_error(), Error::Io);
    assert_eq!(MmapError::InvalidRange(1, 2).to_error(), Error::Io);
    assert_eq!(msync_result(SysReturn::success(0)), Ok(()));
    assert_eq!(
        msync_result(SysReturn::failure(22)),
        Err(MmapError::SystemCallFailed(Error::Sys(22)))
    );
}

#[test]
fn system_call_outcomes() {
    assert_eq!(SysReturn::success(0).status(), Ok(()));
    assert_eq!(SysReturn::failure(13).status(), Err(Error::Sys(13)));
    assert_eq!(SysReturn { ret: 5, errno: 0 }.descriptor(), Ok(5));
    assert_eq!(SysReturn { ret: -1, errno: 24 }.descriptor(), Err(Error::Sys(24)));
    assert_eq!(SysReturn::failure(24), SysReturn { ret: -1, errno: 24 });
}
