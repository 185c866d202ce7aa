use hypervisor::abi::{
    KvmCreateDevice, KvmIrqLevel, KvmIrqRoutingEntry, KvmIrqRoutingSource, KVM_IRQ_ROUTING_IRQCHIP,
    KVM_IRQ_ROUTING_MSI,
};
use hypervisor::guest_memory::{GuestAddress, GuestMemory};
use hypervisor::irq::{chip_to_kvm_chip, IrqRoute, IrqSource, IrqSourceChip};
use hypervisor::kvm::Kvm;
use hypervisor::sys::{descriptor_field, field_descriptor, Error, SysReturn};
use hypervisor::vm::{DeviceKind, KvmVm};

fn vm() -> KvmVm<()> {
    let kvm = Kvm::new(SysReturn::success(3)).unwrap();
    let gm = GuestMemory::new(&[(GuestAddress(0), 0x1000)]).unwrap();
    KvmVm::new(&kvm, gm, SysReturn::success(4)).unwrap()
}

#[test]
fn irq_line_level_follows_active() {
    let vm = vm();
    assert_eq!(vm.set_irq_line_request(5, true), KvmIrqLevel { irq: 5, level: 1 });
    assert_eq!(vm.set_irq_line_request(5, false), KvmIrqLevel { irq: 5, level: 0 });
    assert_eq!(vm.set_irq_line(5, true, SysReturn::success(0)), Ok(()));
    assert_eq!(vm.set_irq_line(5, true, SysReturn::failure(22)), Err(Error::Sys(22)));
    assert_eq!(vm.set_irq_line(5, true, SysReturn { ret: 1, errno: 4 }), Err(Error::Sys(4)));
}

#[test]
fn chips_have_the_numbers_of_the_kernel() {
    assert_eq!(chip_to_kvm_chip(IrqSourceChip::PicPrimary), 0);
    assert_eq!(chip_to_kvm_chip(IrqSourceChip::PicSecondary), 1);
    assert_eq!(chip_to_kvm_chip(IrqSourceChip::Ioapic), 2);
    assert_eq!(chip_to_kvm_chip(IrqSourceChip::Gic), 0);
}

#[test]
fn routing_entry_of_a_pin() {
    let route = IrqRoute {
        gsi: 9,
        source: IrqSource::Irqchip { chip: IrqSourceChip::Ioapic, pin: 11 },
    };
    assert_eq!(
        KvmIrqRoutingEntry::from(&route),
        KvmIrqRoutingEntry {
            gsi: 9,
            type_: KVM_IRQ_ROUTING_IRQCHIP,
            flags: 0,
            pad: 0,
            u: KvmIrqRoutingSource::Irqchip { irqchip: 2, pin: 11 },
        }
    );
}

#[test]
fn routing_entry_of_a_message_splits_the_address() {
    let route = IrqRoute {
        gsi: 30,
        source: IrqSource::Msi { address: 0x1234_5678_9abc_def0, data: 77 },
    };
    assert_eq!(
        KvmIrqRoutingEntry::from(&route),
        KvmIrqRoutingEntry {
            gsi: 30,
            type_: KVM_IRQ_ROUTING_MSI,
            flags: 0,
            pad: 0,
            u: KvmIrqRoutingSource::Msi {
                address_lo: 0x9abc_def0,
                address_hi: 0x1234_5678,
                data: 77,
                pad: 0,
            },
        }
    );
}

#[test]
fn routing_table_has_one_entry_for_each_route() {
    let vm = vm();
    let routes = vec![
        IrqRoute { gsi: 0, source: IrqSource::Irqchip { chip: IrqSourceChip::PicPrimary, pin: 0 } },
        IrqRoute { gsi: 1, source: IrqSource::Msi { address: 0xfee0_0000, data: 0x41 } },
        IrqRoute {
            gsi: 2,
            source: IrqSource::Irqchip { chip: IrqSourceChip::PicSecondary, pin: 2 },
        },
    ];
    let table = vm.set_gsi_routing_request(&routes).unwrap();
    assert_eq!(table.nr(), 3);
    assert_eq!(table.flags(), 0);
    assert_eq!(table.entries().len(), 3);
    for (route, entry) in routes.iter().zip(table.entries().iter()) {
        assert_eq!(*entry, KvmIrqRoutingEntry::from(route));
        assert_eq!(entry.gsi, route.gsi);
        match route.source {
            IrqSource::Irqchip { .. } => {
                assert_eq!(entry.type_, 1);
                assert!(matches!(entry.u, KvmIrqRoutingSource::Irqchip { .. }));
            }
            IrqSource::Msi { .. } => {
                assert_eq!(entry.type_, 2);
                assert!(matches!(entry.u, KvmIrqRoutingSource::Msi { .. }));
            }
        }
    }
    assert_eq!(vm.set_gsi_routing(&routes, SysReturn::success(0)), Ok(()));
    assert_eq!(vm.set_gsi_routing(&routes, SysReturn::failure(22)), Err(Error::Sys(22)));
}

#[test]
fn empty_routing_table() {
    let vm = vm();
    let table = vm.set_gsi_routing_request(&[]).unwrap();
    assert_eq!(table.nr(), 0);
    assert!(table.entries().is_empty());
    assert_eq!(table.words(), vec![0, 0]);
}

#[test]
fn routing_table_as_the_kernel_reads_it() {
    let vm = vm();
    let routes = vec![
        IrqRoute { gsi: 5, source: IrqSource::Irqchip { chip: IrqSourceChip::Ioapic, pin: 7 } },
        IrqRoute { gsi: 6, source: IrqSource::Msi { address: 0x1_0000_0002, data: 0x41 } },
    ];
    let table = vm.set_gsi_routing_request(&routes).unwrap();
    assert_eq!(
        table.words(),
        vec![
            2, 0, // count, flags
            5, 1, 0, 0, 2, 7, 0, 0, 0, 0, 0, 0, // a pin
            6, 2, 0, 0, 2, 1, 0x41, 0, 0, 0, 0, 0, // a message
        ]
    );
}

#[test]
fn descriptor_fields_keep_the_bits() {
    assert_eq!(descriptor_field(0), 0);
    assert_eq!(descriptor_field(7), 7);
    assert_eq!(descriptor_field(-1), 0xffff_ffff);
    assert_eq!(descriptor_field(i32::MIN), 0x8000_0000);
    assert_eq!(field_descriptor(7), 7);
    assert_eq!(field_descriptor(0xffff_ffff), -1);
    assert_eq!(field_descriptor(0x8000_0000), i32::MIN);
}

#[test]
fn create_device_requests() {
    let vm = vm();
    let vfio = KvmCreateDevice { type_: 4, fd: 0, flags: 0 };
    assert_eq!(vm.create_device_request(DeviceKind::Vfio, None), Ok(vfio));
    assert_eq!(vm.create_device_request(DeviceKind::ArmVgicV2, None), Err(Error::NoDevice));
    assert_eq!(vm.create_device_request(DeviceKind::ArmVgicV3, None), Err(Error::NoDevice));
    let vgic = KvmCreateDevice { type_: 7, fd: 0, flags: 0 };
    assert_eq!(vm.create_device_request(DeviceKind::ArmVgicV3, Some(vgic)), Ok(vgic));
    assert_eq!(vm.create_device(DeviceKind::Vfio, None, SysReturn::success(0), 12), Ok(12));
    assert_eq!(
        vm.create_device(DeviceKind::Vfio, None, SysReturn::failure(19), 0),
        Err(Error::Sys(19))
    );
    assert_eq!(
        vm.create_device(DeviceKind::ArmVgicV2, None, SysReturn::success(0), 12),
        Err(Error::NoDevice)
    );
    assert_eq!(
        vm.create_device(DeviceKind::ArmVgicV2, Some(vgic), SysReturn::success(0), 12),
        Ok(12)
    );
}
