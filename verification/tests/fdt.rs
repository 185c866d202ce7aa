use hypervisor::fdt::{
    cpu_mask, create_cpu_nodes, create_fdt, create_pci_nodes, create_timer_node, fdt_written,
    BoardLayout, FdtError, FdtItem, FdtValue, PciInterruptPin,
};
use hypervisor::guest_memory::{GuestAddress, GuestMemory};

fn board() -> BoardLayout {
    BoardLayout {
        phys_mem_start: 0x8000_0000,
        gic_dist_base: 0x3fff_0000,
        gic_dist_size: 0x1_0000,
        gic_cpui_base: 0x3ffd_0000,
        gic_cpui_size: 0x2_0000,
        rtc_addr: 0x2000,
        rtc_size: 0x1000,
        rtc_irq: 1,
        rtc_amba_id: 0x0004_1030,
        serial_addr: 0x3f8,
        serial_size: 0x8,
        serial_irq: 0,
        serial_speed: 1843200,
        irq_base: 2,
        mmio_base: 0x101_0000,
        mmio_size: 0x10_0000,
        pci_cfg_base: 0x1_0000,
        pci_cfg_size: 0x100_0000,
    }
}

fn begin(name: &str) -> FdtItem {
    FdtItem::BeginNode(String::from(name))
}

fn text(name: &str, value: &str) -> FdtItem {
    FdtItem::Property(String::from(name), FdtValue::Text(String::from(value)))
}

fn cell(name: &str, value: u32) -> FdtItem {
    FdtItem::Property(String::from(name), FdtValue::U32(value))
}

fn cells32(name: &str, value: Vec<u32>) -> FdtItem {
    FdtItem::Property(String::from(name), FdtValue::Cells32(value))
}

fn cells64(name: &str, value: Vec<u64>) -> FdtItem {
    FdtItem::Property(String::from(name), FdtValue::Cells64(value))
}

fn null(name: &str) -> FdtItem {
    FdtItem::Property(String::from(name), FdtValue::Null)
}

#[test]
fn cpu_mask_has_a_bit_for_each_of_eight_cpus() {
    assert_eq!(cpu_mask(0), 0);
    assert_eq!(cpu_mask(1), 0x0100);
    assert_eq!(cpu_mask(2), 0x0300);
    assert_eq!(cpu_mask(3), 0x0700);
    assert_eq!(cpu_mask(4), 0x0f00);
    assert_eq!(cpu_mask(7), 0x7f00);
    assert_eq!(cpu_mask(8), 0xff00);
    assert_eq!(cpu_mask(9), 0xff00);
    assert_eq!(cpu_mask(31), 0xff00);
    assert_eq!(cpu_mask(32), 0xff00);
    assert_eq!(cpu_mask(u32::MAX), 0xff00);
    for n in 0..32u32 {
        assert_eq!(cpu_mask(n), (((1u32 << n) - 1) << 8) & 0xff00);
    }
}

#[test]
fn one_cpu_has_no_enable_method() {
    let mut fdt = Vec::new();
    create_cpu_nodes(&mut fdt, 1);
    assert_eq!(
        fdt,
        vec![
            begin("cpus"),
            cell("#address-cells", 1),
            cell("#size-cells", 0),
            begin("cpu@0"),
            text("device_type", "cpu"),
            text("compatible", "arm,arm-v8"),
            cell("reg", 0),
            FdtItem::EndNode,
            FdtItem::EndNode,
        ]
    );
}

#[test]
fn several_cpus_start_through_psci() {
    let mut fdt = vec![begin("")];
    create_cpu_nodes(&mut fdt, 12);
    assert_eq!(fdt.len(), 1 + 3 + 12 * 6 + 1);
    assert_eq!(fdt[0], begin(""));
    assert_eq!(fdt[4], begin("cpu@0"));
    assert_eq!(fdt[7], text("enable-method", "psci"));
    assert_eq!(fdt[4 + 6 * 10], begin("cpu@a"));
    assert_eq!(fdt[4 + 6 * 11], begin("cpu@b"));
    assert_eq!(fdt[4 + 6 * 11 + 4], cell("reg", 11));
    assert_eq!(fdt[fdt.len() - 1], FdtItem::EndNode);
}

#[test]
fn no_cpu_at_all() {
    let mut fdt = Vec::new();
    create_cpu_nodes(&mut fdt, 0);
    assert_eq!(
        fdt,
        vec![begin("cpus"), cell("#address-cells", 1), cell("#size-cells", 0), FdtItem::EndNode]
    );
}

#[test]
fn timer_interrupts() {
    let mut fdt = Vec::new();
    create_timer_node(&mut fdt, 2);
    assert_eq!(
        fdt,
        vec![
            begin("timer"),
            text("compatible", "arm,armv8-timer"),
            cells32(
                "interrupts",
                vec![1, 13, 0x308, 1, 14, 0x308, 1, 11, 0x308, 1, 10, 0x308]
            ),
            null("always-on"),
            FdtItem::EndNode,
        ]
    );
}

#[test]
fn pci_interrupt_map() {
    let mut fdt = Vec::new();
    let pci_irqs = vec![(0, PciInterruptPin::IntA), (5, PciInterruptPin::IntD)];
    create_pci_nodes(&mut fdt, &board(), pci_irqs);
    assert_eq!(
        fdt,
        vec![
            begin("pci"),
            text("compatible", "pci-host-cam-generic"),
            text("device_type", "pci"),
            cells32("ranges", vec![0x2000000, 0, 0x101_0000, 0, 0x101_0000, 0, 0x10_0000]),
            cells32("bus-range", vec![0, 0]),
            cell("#address-cells", 3),
            cell("#size-cells", 2),
            cells64("reg", vec![0x1_0000, 0x100_0000]),
            cell("#interrupt-cells", 1),
            cells32(
                "interrupt-map",
                vec![
                    1 << 11, 0, 0, 1, 1, 0, 0, 0, 2, 4, //
                    6 << 11, 0, 0, 4, 1, 0, 0, 0, 3, 4,
                ]
            ),
            cells32("interrupt-map-mask", vec![0xf800, 0, 0, 0x7, 0xf800, 0, 0, 0x7]),
            FdtItem::EndNode,
        ]
    );
}

#[test]
fn pci_numbers_lose_what_is_above_32_bits() {
    let mut fdt = Vec::new();
    let mut high = board();
    high.irq_base = u32::MAX;
    high.mmio_base = 0x12_3456_789a;
    let pci_irqs = vec![
        (u32::MAX, PciInterruptPin::IntB),
        (0x1f_ffff, PciInterruptPin::IntC),
        (0x20_0000, PciInterruptPin::IntC),
    ];
    create_pci_nodes(&mut fdt, &high, pci_irqs);
    assert_eq!(
        fdt[3],
        cells32("ranges", vec![0x2000000, 0x12, 0x3456_789a, 0x12, 0x3456_789a, 0, 0x10_0000])
    );
    assert_eq!(
        fdt[9],
        cells32(
            "interrupt-map",
            vec![
                0, 0, 0, 2, 1, 0, 0, 0, u32::MAX, 4, //
                0, 0, 0, 3, 1, 0, 0, 0, 0, 4, //
                0x800, 0, 0, 3, 1, 0, 0, 0, 1, 4,
            ]
        )
    );
}

#[test]
fn whole_tree() {
    let gm = GuestMemory::new(&[(GuestAddress(0x8000_0000), 0x1000_0000)]).unwrap();
    let fdt = create_fdt(
        0x20_0000,
        &gm,
        vec![(1, PciInterruptPin::IntA)],
        2,
        0x1000,
        b"console=ttyS0",
        &board(),
    )
    .unwrap();
    assert_eq!(fdt.max_size, 0x20_0000);
    assert_eq!(fdt.address, GuestAddress(0x8000_1000));
    let items = &fdt.items;
    assert_eq!(&items[..5], &[
        begin(""),
        cell("interrupt-parent", 1),
        text("compatible", "linux,dummy-virt"),
        cell("#address-cells", 2),
        cell("#size-cells", 2),
    ]);
    assert_eq!(&items[5..10], &[
        begin("chosen"),
        cell("linux,pci-probe-only", 1),
        FdtItem::Property(String::from("bootargs"), FdtValue::Bytes(b"console=ttyS0".to_vec())),
        FdtItem::Property(String::from("kaslr"), FdtValue::U64(0)),
        FdtItem::EndNode,
    ]);
    assert_eq!(&items[10..14], &[
        begin("memory"),
        text("device_type", "memory"),
        cells64("reg", vec![0x8000_0000, 0x1000_0000]),
        FdtItem::EndNode,
    ]);
    // the nodes come in a fixed order
    let names: Vec<&str> = items
        .iter()
        .filter_map(|item| match item {
            FdtItem::BeginNode(name) => Some(name.as_str()),
            _ => None,
        })
        .collect();
    assert_eq!(names, vec![
        "", "chosen", "memory", "cpus", "cpu@0", "cpu@1", "intc", "timer", "U6_16550A@3f8",
        "psci", "pci", "pclk@3M", "rtc@2000",
    ]);
    // every node that begins ends, and the root ends last
    let mut depth = 0;
    for (at, item) in items.iter().enumerate() {
        match item {
            FdtItem::BeginNode(_) => depth += 1,
            FdtItem::EndNode => depth -= 1,
            FdtItem::Property(..) => assert!(depth > 0),
        }
        assert!(depth > 0 || at == items.len() - 1);
    }
    assert_eq!(depth, 0);
    assert!(items.contains(&cells64("reg", vec![0x3fff_0000, 0x1_0000, 0x3ffd_0000, 0x2_0000])));
    assert!(items.contains(&cells64("reg", vec![0x3f8, 0x8])));
    assert!(items.contains(&cell("clock-frequency", 1843200)));
    assert!(items.contains(&cells32("interrupts", vec![0, 0, 1])));
    assert!(items.contains(&cell("cpu_on", 0xc400_0003)));
    assert!(items.contains(&cell("arm,primecell-periphid", 0x0004_1030)));
    assert!(items.contains(&cells32("interrupts", vec![0, 1, 4])));
    assert!(items.contains(&cell("clocks", 24)));
    assert!(items.contains(&text("clock-names", "apb_pclk")));
}

#[test]
fn tree_past_the_address_space() {
    let gm = GuestMemory::new(&[(GuestAddress(0x8000_0000), 0x1000)]).unwrap();
    assert_eq!(
        create_fdt(0x1000, &gm, Vec::new(), 1, u64::MAX - 0x7fff_ffff, b"", &board()),
        Err(FdtError::FdtGuestMemoryWriteError)
    );
    let fdt = create_fdt(0x1000, &gm, Vec::new(), 1, u64::MAX - 0x8000_0000, b"", &board());
    assert_eq!(fdt.unwrap().address, GuestAddress(u64::MAX));
}

#[test]
fn values_as_the_tree_holds_them() {
    let none: Vec<u8> = Vec::new();
    assert_eq!(FdtValue::Null.encode(), none);
    assert_eq!(FdtValue::U32(0x0102_0304).encode(), vec![1, 2, 3, 4]);
    assert_eq!(FdtValue::U32(1).encode(), vec![0, 0, 0, 1]);
    assert_eq!(FdtValue::U32(u32::MAX).encode(), vec![0xff; 4]);
    assert_eq!(FdtValue::U64(0x0102_0304_0506_0708).encode(), vec![1, 2, 3, 4, 5, 6, 7, 8]);
    assert_eq!(FdtValue::Text(String::from("cpu")).encode(), b"cpu\0".to_vec());
    assert_eq!(FdtValue::Text(String::new()).encode(), vec![0]);
    assert_eq!(FdtValue::Bytes(b"a=b".to_vec()).encode(), b"a=b\0".to_vec());
    assert_eq!(FdtValue::Cells32(Vec::new()).encode(), none);
    assert_eq!(
        FdtValue::Cells32(vec![1, 0x8000_0000]).encode(),
        vec![0, 0, 0, 1, 0x80, 0, 0, 0]
    );
    assert_eq!(
        FdtValue::Cells64(vec![0x8000_0000, 0x1000_0000]).encode(),
        vec![0, 0, 0, 0, 0x80, 0, 0, 0, 0, 0, 0, 0, 0x10, 0, 0, 0]
    );
    for cell in [0u32, 1, 0xdead_beef, u32::MAX] {
        assert_eq!(FdtValue::U32(cell).encode(), cell.to_be_bytes().to_vec());
    }
    for cell in [0u64, 1, 0xdead_beef_0bad_f00d, u64::MAX] {
        assert_eq!(FdtValue::U64(cell).encode(), cell.to_be_bytes().to_vec());
    }
}

#[test]
fn short_write_is_a_failure() {
    assert_eq!(fdt_written(0x1000, 0x1000), Ok(()));
    assert_eq!(fdt_written(0x1001, 0x1000), Ok(()));
    assert_eq!(fdt_written(0xfff, 0x1000), Err(FdtError::FdtGuestMemoryWriteError));
    assert_eq!(fdt_written(0, 0), Ok(()));
}
