//! The hardware description that a guest kernel reads at boot, as a tree of
//! nodes and properties written down in document order. Turning the
//! description into a binary blob and writing the blob into guest memory
//! are the caller's work.

use vstd::prelude::*;
use crate::guest_memory::{total_size, GuestAddress, GuestMemory};
use crate::text::{hex, with_hex_suffix};

verus! {

/// The handle by which nodes refer to the interrupt controller.
pub const PHANDLE_GIC: u32 = 1;

/// The handle by which the clock of the real-time clock is referred to.
pub const CLK_PHANDLE: u32 = 24;

/// The number of cells of an interrupt specifier of the controller.
pub const GIC_FDT_IRQ_NUM_CELLS: u32 = 3;

/// Interrupt type: shared peripheral interrupt.
pub const GIC_FDT_IRQ_TYPE_SPI: u32 = 0;

/// Interrupt type: private peripheral interrupt.
pub const GIC_FDT_IRQ_TYPE_PPI: u32 = 1;

/// Where the CPU mask starts in the flags of a private interrupt.
pub const GIC_FDT_IRQ_PPI_CPU_SHIFT: u32 = 8;

/// The bits of the CPU mask in the flags of a private interrupt.
pub const GIC_FDT_IRQ_PPI_CPU_MASK: u32 = 0xff00;

/// Trigger: rising edge.
pub const IRQ_TYPE_EDGE_RISING: u32 = 0x00000001;

/// Trigger: high level.
pub const IRQ_TYPE_LEVEL_HIGH: u32 = 0x00000004;

/// Trigger: low level.
pub const IRQ_TYPE_LEVEL_LOW: u32 = 0x00000008;

/// Where the devices of the board lie in the guest's physical address space,
/// and which interrupts they have.
#[derive(Clone, Copy, Debug, PartialEq, Eq, Structural)]
pub struct BoardLayout {
    /// The start of DRAM.
    pub phys_mem_start: u64,
    /// The distributor of the interrupt controller.
    pub gic_dist_base: u64,
    pub gic_dist_size: u64,
    /// The CPU interface of the interrupt controller.
    pub gic_cpui_base: u64,
    pub gic_cpui_size: u64,
    /// The real-time clock.
    pub rtc_addr: u64,
    pub rtc_size: u64,
    pub rtc_irq: u32,
    /// The peripheral identifier of the real-time clock.
    pub rtc_amba_id: u32,
    /// The serial device.
    pub serial_addr: u64,
    pub serial_size: u64,
    pub serial_irq: u32,
    pub serial_speed: u32,
    /// The first interrupt of the PCI devices.
    pub irq_base: u32,
    /// The window through which PCI devices are reached.
    pub mmio_base: u64,
    pub mmio_size: u64,
    /// The PCI configuration space.
    pub pci_cfg_base: u64,
    pub pci_cfg_size: u64,
}

/// A pin by which a PCI device raises an interrupt.
#[derive(Clone, Copy, Debug, PartialEq, Eq, Structural)]
pub enum PciInterruptPin {
    IntA,
    IntB,
    IntC,
    IntD,
}

impl PciInterruptPin {
    /// The number of the pin, from 0 for the first.
    pub open spec fn spec_to_mask(self) -> u32 {
        match self {
            PciInterruptPin::IntA => 0,
            PciInterruptPin::IntB => 1,
            PciInterruptPin::IntC => 2,
            PciInterruptPin::IntD => 3,
        }
    }

    /// The number of the pin, from 0 for the first.
    #[verifier::when_used_as_spec(spec_to_mask)]
    pub fn to_mask(self) -> (mask: u32)
        ensures
            mask == self.spec_to_mask(),
    {
        match self {
            PciInterruptPin::IntA => 0,
            PciInterruptPin::IntB => 1,
            PciInterruptPin::IntC => 2,
            PciInterruptPin::IntD => 3,
        }
    }
}

/// The value of a property.
#[derive(Debug, PartialEq, Eq)]
pub enum FdtValue {
    /// No value: the property's presence is what counts.
    Null,
    /// One 32-bit cell.
    U32(u32),
    /// One 64-bit cell.
    U64(u64),
    /// A text.
    Text(String),
    /// A text given as bytes, without the zero byte that ends it.
    Bytes(Vec<u8>),
    /// A row of 32-bit cells.
    Cells32(Vec<u32>),
    /// A row of 64-bit cells.
    Cells64(Vec<u64>),
}

/// What an [`FdtValue`] holds.
pub enum FdtValueView {
    Null,
    U32(u32),
    U64(u64),
    Text(Seq<char>),
    Bytes(Seq<u8>),
    Cells32(Seq<u32>),
    Cells64(Seq<u64>),
}

impl View for FdtValue {
    type V = FdtValueView;

    open spec fn view(&self) -> FdtValueView {
        match self {
            FdtValue::Null => FdtValueView::Null,
            FdtValue::U32(v) => FdtValueView::U32(*v),
            FdtValue::U64(v) => FdtValueView::U64(*v),
            FdtValue::Text(v) => FdtValueView::Text(v@),
            FdtValue::Bytes(v) => FdtValueView::Bytes(v@),
            FdtValue::Cells32(v) => FdtValueView::Cells32(v@),
            FdtValue::Cells64(v) => FdtValueView::Cells64(v@),
        }
    }
}

/// A 32-bit cell as the tree holds it: four bytes, the most significant
/// first.
pub open spec fn cell32_bytes(cell: u32) -> Seq<u8> {
    seq![
        (cell / 0x100_0000) as u8,
        (cell / 0x1_0000 % 0x100) as u8,
        (cell / 0x100 % 0x100) as u8,
        (cell % 0x100) as u8,
    ]
}

/// A 64-bit cell as the tree holds it: eight bytes, the most significant
/// first.
pub open spec fn cell64_bytes(cell: u64) -> Seq<u8> {
    cell32_bytes((cell / 0x1_0000_0000) as u32) + cell32_bytes((cell % 0x1_0000_0000) as u32)
}

/// A row of 32-bit cells as the tree holds it.
pub open spec fn cells32_bytes(cells: Seq<u32>) -> Seq<u8>
    decreases cells.len(),
{
    if cells.len() == 0 {
        Seq::empty()
    } else {
        cells32_bytes(cells.drop_last()) + cell32_bytes(cells.last())
    }
}

/// A row of 64-bit cells as the tree holds it.
pub open spec fn cells64_bytes(cells: Seq<u64>) -> Seq<u8>
    decreases cells.len(),
{
    if cells.len() == 0 {
        Seq::empty()
    } else {
        cells64_bytes(cells.drop_last()) + cell64_bytes(cells.last())
    }
}

/// The value of a property as the tree holds it: nothing for no value,
/// cells with their most significant byte first, and a text followed by a
/// zero byte.
pub open spec fn value_bytes(value: FdtValueView) -> Seq<u8> {
    match value {
        FdtValueView::Null => Seq::empty(),
        FdtValueView::U32(v) => cell32_bytes(v),
        FdtValueView::U64(v) => cell64_bytes(v),
        FdtValueView::Text(v) => vstd::utf8::encode_utf8(v).push(0),
        FdtValueView::Bytes(v) => v.push(0),
        FdtValueView::Cells32(v) => cells32_bytes(v),
        FdtValueView::Cells64(v) => cells64_bytes(v),
    }
}

/// Appends the four bytes of a 32-bit cell.
fn push_cell32(bytes: &mut Vec<u8>, cell: u32)
    ensures
        final(bytes)@ == old(bytes)@ + cell32_bytes(cell),
{
    let b0 = (cell >> 24) as u8;
    let b1 = ((cell >> 16) & 0xff) as u8;
    let b2 = ((cell >> 8) & 0xff) as u8;
    let b3 = (cell & 0xff) as u8;
    assert(cell >> 24 == cell / 0x100_0000 && cell >> 24 < 0x100) by (bit_vector);
    assert((cell >> 16) & 0xff == cell / 0x1_0000 % 0x100) by (bit_vector);
    assert((cell >> 8) & 0xff == cell / 0x100 % 0x100) by (bit_vector);
    assert(cell & 0xff == cell % 0x100) by (bit_vector);
    bytes.push(b0);
    bytes.push(b1);
    bytes.push(b2);
    bytes.push(b3);
    assert(bytes@ =~= old(bytes)@ + cell32_bytes(cell));
}

/// Appends the eight bytes of a 64-bit cell.
fn push_cell64(bytes: &mut Vec<u8>, cell: u64)
    ensures
        final(bytes)@ == old(bytes)@ + cell64_bytes(cell),
{
    let high = #[verifier::truncate]
    ((cell >> 32) as u32);
    let low = #[verifier::truncate]
    (cell as u32);
    assert(high == cell / 0x1_0000_0000) by (bit_vector)
        requires
            high == (cell >> 32) as u32,
    ;
    assert(low == cell % 0x1_0000_0000) by (bit_vector)
        requires
            low == cell as u32,
    ;
    push_cell32(bytes, high);
    push_cell32(bytes, low);
    assert(bytes@ =~= old(bytes)@ + cell64_bytes(cell));
}

impl FdtValue {
    /// The value as the tree holds it, see [`value_bytes`].
    pub fn encode(&self) -> (bytes: Vec<u8>)
        ensures
            bytes@ == value_bytes(self@),
    {
        let mut bytes: Vec<u8> = Vec::new();
        match self {
            FdtValue::Null => {},
            FdtValue::U32(v) => {
                push_cell32(&mut bytes, *v);
            },
            FdtValue::U64(v) => {
                push_cell64(&mut bytes, *v);
            },
            FdtValue::Text(v) => {
                bytes.extend_from_slice(v.as_str().as_bytes());
                bytes.push(0);
            },
            FdtValue::Bytes(v) => {
                bytes.extend_from_slice(v.as_slice());
                bytes.push(0);
            },
            FdtValue::Cells32(v) => {
                let mut i: usize = 0;
                while i < v.len()
                    invariant
                        0 <= i <= v.len(),
                        bytes@ =~= cells32_bytes(v@.take(i as int)),
                    decreases v.len() - i,
                {
                    proof {
                        assert(v@.take(i + 1).drop_last() =~= v@.take(i as int));
                        assert(v@.take(i + 1).last() == v@[i as int]);
                    }
                    push_cell32(&mut bytes, v[i]);
                    i += 1;
                }
                assert(v@.take(v@.len() as int) =~= v@);
            },
            FdtValue::Cells64(v) => {
                let mut i: usize = 0;
                while i < v.len()
                    invariant
                        0 <= i <= v.len(),
                        bytes@ =~= cells64_bytes(v@.take(i as int)),
                    decreases v.len() - i,
                {
                    proof {
                        assert(v@.take(i + 1).drop_last() =~= v@.take(i as int));
                        assert(v@.take(i + 1).last() == v@[i as int]);
                    }
                    push_cell64(&mut bytes, v[i]);
                    i += 1;
                }
                assert(v@.take(v@.len() as int) =~= v@);
            },
        }
        bytes
    }
}

/// One step of writing the tree down: a node begins, a property of the
/// node that is open, or the node that is open ends.
#[derive(Debug, PartialEq, Eq)]
pub enum FdtItem {
    BeginNode(String),
    Property(String, FdtValue),
    EndNode,
}

/// What an [`FdtItem`] holds.
pub enum FdtItemView {
    BeginNode(Seq<char>),
    Property(Seq<char>, FdtValueView),
    EndNode,
}

impl View for FdtItem {
    type V = FdtItemView;

    open spec fn view(&self) -> FdtItemView {
        match self {
            FdtItem::BeginNode(name) => FdtItemView::BeginNode(name@),
            FdtItem::Property(name, value) => FdtItemView::Property(name@, value@),
            FdtItem::EndNode => FdtItemView::EndNode,
        }
    }
}

/// What a list of items holds.
pub open spec fn items(fdt: Seq<FdtItem>) -> Seq<FdtItemView> {
    fdt.map_values(|item: FdtItem| item@)
}

/// Appends the beginning of a node called `name`.
pub fn begin_node(fdt: &mut Vec<FdtItem>, name: &str)
    ensures
        items(final(fdt)@) == items(old(fdt)@).push(FdtItemView::BeginNode(name@)),
{
    fdt.push(FdtItem::BeginNode(name.to_owned()));
    assert(items(fdt@) =~= items(old(fdt)@).push(FdtItemView::BeginNode(name@)));
}

/// Appends the end of the node that is open.
pub fn end_node(fdt: &mut Vec<FdtItem>)
    ensures
        items(final(fdt)@) == items(old(fdt)@).push(FdtItemView::EndNode),
{
    fdt.push(FdtItem::EndNode);
    assert(items(fdt@) =~= items(old(fdt)@).push(FdtItemView::EndNode));
}

/// Appends the property `name` with the given value.
pub fn property(fdt: &mut Vec<FdtItem>, name: &str, value: FdtValue)
    ensures
        items(final(fdt)@) == items(old(fdt)@).push(FdtItemView::Property(name@, value@)),
{
    fdt.push(FdtItem::Property(name.to_owned(), value));
    assert(items(fdt@) =~= items(old(fdt)@).push(FdtItemView::Property(name@, value@)));
}

/// Appends the property `name` without a value.
pub fn property_null(fdt: &mut Vec<FdtItem>, name: &str)
    ensures
        items(final(fdt)@) == items(old(fdt)@).push(
            FdtItemView::Property(name@, FdtValueView::Null),
        ),
{
    property(fdt, name, FdtValue::Null)
}

/// Appends the property `name` with one 32-bit cell.
pub fn property_u32(fdt: &mut Vec<FdtItem>, name: &str, val: u32)
    ensures
        items(final(fdt)@) == items(old(fdt)@).push(
            FdtItemView::Property(name@, FdtValueView::U32(val)),
        ),
{
    property(fdt, name, FdtValue::U32(val))
}

/// Appends the property `name` with one 64-bit cell.
pub fn property_u64(fdt: &mut Vec<FdtItem>, name: &str, val: u64)
    ensures
        items(final(fdt)@) == items(old(fdt)@).push(
            FdtItemView::Property(name@, FdtValueView::U64(val)),
        ),
{
    property(fdt, name, FdtValue::U64(val))
}

/// Appends the property `name` with a text.
pub fn property_string(fdt: &mut Vec<FdtItem>, name: &str, value: &str)
    ensures
        items(final(fdt)@) == items(old(fdt)@).push(
            FdtItemView::Property(name@, FdtValueView::Text(value@)),
        ),
{
    property(fdt, name, FdtValue::Text(value.to_owned()))
}

/// The node of the guest's memory: `mem_size` bytes from the start of DRAM
/// on.
pub open spec fn memory_node(board: BoardLayout, mem_size: u64) -> Seq<FdtItemView> {
    seq![
        FdtItemView::BeginNode("memory"@),
        FdtItemView::Property("device_type"@, FdtValueView::Text("memory"@)),
        FdtItemView::Property(
            "reg"@,
            FdtValueView::Cells64(seq![board.phys_mem_start, mem_size]),
        ),
        FdtItemView::EndNode,
    ]
}

/// Appends the node of the guest's memory, see [`memory_node`].
pub fn create_memory_node(fdt: &mut Vec<FdtItem>, board: &BoardLayout, guest_mem: &GuestMemory)
    requires
        guest_mem.wf(),
    ensures
        items(final(fdt)@) == items(old(fdt)@) + memory_node(
            *board,
            total_size(guest_mem@) as u64,
        ),
{
    let mem_size = guest_mem.memory_size();
    let mut mem_reg_prop: Vec<u64> = Vec::new();
    mem_reg_prop.push(board.phys_mem_start);
    mem_reg_prop.push(mem_size);
    assert(mem_reg_prop@ =~= seq![board.phys_mem_start, mem_size]);
    begin_node(fdt, "memory");
    property_string(fdt, "device_type", "memory");
    property(fdt, "reg", FdtValue::Cells64(mem_reg_prop));
    end_node(fdt);
    assert(items(fdt@) =~= items(old(fdt)@) + memory_node(*board, mem_size));
}

/// The node of CPU `cpu_id` of `num_cpus`. Where there are several CPUs
/// each is started through PSCI.
pub open spec fn cpu_node(num_cpus: u32, cpu_id: u32) -> Seq<FdtItemView> {
    seq![
        FdtItemView::BeginNode("cpu@"@ + hex(cpu_id as nat)),
        FdtItemView::Property("device_type"@, FdtValueView::Text("cpu"@)),
        FdtItemView::Property("compatible"@, FdtValueView::Text("arm,arm-v8"@)),
    ] + (if num_cpus > 1 {
        seq![FdtItemView::Property("enable-method"@, FdtValueView::Text("psci"@))]
    } else {
        Seq::empty()
    }) + seq![
        FdtItemView::Property("reg"@, FdtValueView::U32(cpu_id)),
        FdtItemView::EndNode,
    ]
}

/// The nodes of the first `count` of `num_cpus` CPUs, in ascending order.
pub open spec fn cpu_node_list(num_cpus: u32, count: nat) -> Seq<FdtItemView>
    decreases count,
{
    if count == 0 {
        Seq::empty()
    } else {
        cpu_node_list(num_cpus, (count - 1) as nat) + cpu_node(num_cpus, (count - 1) as u32)
    }
}

/// The node that holds one node for each of `num_cpus` CPUs.
pub open spec fn cpu_nodes(num_cpus: u32) -> Seq<FdtItemView> {
    seq![
        FdtItemView::BeginNode("cpus"@),
        FdtItemView::Property("#address-cells"@, FdtValueView::U32(0x1)),
        FdtItemView::Property("#size-cells"@, FdtValueView::U32(0x0)),
    ] + cpu_node_list(num_cpus, num_cpus as nat) + seq![FdtItemView::EndNode]
}

/// Appends the node of the CPUs, see [`cpu_nodes`].
pub fn create_cpu_nodes(fdt: &mut Vec<FdtItem>, num_cpus: u32)
    ensures
        items(final(fdt)@) == items(old(fdt)@) + cpu_nodes(num_cpus),
{
    let ghost head = seq![
        FdtItemView::BeginNode("cpus"@),
        FdtItemView::Property("#address-cells"@, FdtValueView::U32(0x1)),
        FdtItemView::Property("#size-cells"@, FdtValueView::U32(0x0)),
    ];
    begin_node(fdt, "cpus");
    property_u32(fdt, "#address-cells", 0x1);
    property_u32(fdt, "#size-cells", 0x0);
    assert(items(fdt@) =~= items(old(fdt)@) + head + cpu_node_list(num_cpus, 0));
    let mut cpu_id: u32 = 0;
    while cpu_id < num_cpus
        invariant
            0 <= cpu_id <= num_cpus,
            items(fdt@) =~= items(old(fdt)@) + head + cpu_node_list(num_cpus, cpu_id as nat),
        decreases num_cpus - cpu_id,
    {
        let ghost before = items(fdt@);
        let cpu_name = with_hex_suffix("cpu@", cpu_id as u64);
        begin_node(fdt, cpu_name.as_str());
        property_string(fdt, "device_type", "cpu");
        property_string(fdt, "compatible", "arm,arm-v8");
        if num_cpus > 1 {
            property_string(fdt, "enable-method", "psci");
        }
        property_u32(fdt, "reg", cpu_id);
        end_node(fdt);
        assert(items(fdt@) =~= before + cpu_node(num_cpus, cpu_id));
        cpu_id += 1;
    }
    end_node(fdt);
    assert(items(fdt@) =~= items(old(fdt)@) + cpu_nodes(num_cpus));
}

/// The node of the interrupt controller.
pub open spec fn gic_node(board: BoardLayout) -> Seq<FdtItemView> {
    seq![
        FdtItemView::BeginNode("intc"@),
        FdtItemView::Property("compatible"@, FdtValueView::Text("arm,cortex-a15-gic"@)),
        FdtItemView::Property("#interrupt-cells"@, FdtValueView::U32(GIC_FDT_IRQ_NUM_CELLS)),
        FdtItemView::Property("interrupt-controller"@, FdtValueView::Null),
        FdtItemView::Property(
            "reg"@,
            FdtValueView::Cells64(
                seq![
                    board.gic_dist_base,
                    board.gic_dist_size,
                    board.gic_cpui_base,
                    board.gic_cpui_size,
                ],
            ),
        ),
        FdtItemView::Property("phandle"@, FdtValueView::U32(PHANDLE_GIC)),
        FdtItemView::Property("#address-cells"@, FdtValueView::U32(2)),
        FdtItemView::Property("#size-cells"@, FdtValueView::U32(2)),
        FdtItemView::EndNode,
    ]
}

/// Appends the node of the interrupt controller, see [`gic_node`].
pub fn create_gic_node(fdt: &mut Vec<FdtItem>, board: &BoardLayout)
    ensures
        items(final(fdt)@) == items(old(fdt)@) + gic_node(*board),
{
    let mut gic_reg_prop: Vec<u64> = Vec::new();
    gic_reg_prop.push(board.gic_dist_base);
    gic_reg_prop.push(board.gic_dist_size);
    gic_reg_prop.push(board.gic_cpui_base);
    gic_reg_prop.push(board.gic_cpui_size);
    assert(gic_reg_prop@ =~= seq![
        board.gic_dist_base,
        board.gic_dist_size,
        board.gic_cpui_base,
        board.gic_cpui_size,
    ]);
    begin_node(fdt, "intc");
    property_string(fdt, "compatible", "arm,cortex-a15-gic");
    property_u32(fdt, "#interrupt-cells", GIC_FDT_IRQ_NUM_CELLS);
    property_null(fdt, "interrupt-controller");
    property(fdt, "reg", FdtValue::Cells64(gic_reg_prop));
    property_u32(fdt, "phandle", PHANDLE_GIC);
    property_u32(fdt, "#address-cells", 2);
    property_u32(fdt, "#size-cells", 2);
    end_node(fdt);
    assert(items(fdt@) =~= items(old(fdt)@) + gic_node(*board));
}

/// The mask of the CPUs that a private interrupt goes to, in its place in
/// the interrupt's flags: one bit for each of the first eight CPUs.
pub open spec fn spec_cpu_mask(num_cpus: u32) -> u32 {
    if num_cpus == 0 {
        0x0000
    } else if num_cpus == 1 {
        0x0100
    } else if num_cpus == 2 {
        0x0300
    } else if num_cpus == 3 {
        0x0700
    } else if num_cpus == 4 {
        0x0f00
    } else if num_cpus == 5 {
        0x1f00
    } else if num_cpus == 6 {
        0x3f00
    } else if num_cpus == 7 {
        0x7f00
    } else {
        0xff00
    }
}

/// Shifting and masking give the mask that [`spec_cpu_mask`] lists.
proof fn lemma_cpu_mask(num_cpus: u32)
    by (bit_vector)
    requires
        num_cpus < 8,
    ensures
        ((((1u32 << num_cpus) - 1) as u32) << 8u32) & 0xff00u32 == if num_cpus == 0 {
            0x0000u32
        } else if num_cpus == 1 {
            0x0100u32
        } else if num_cpus == 2 {
            0x0300u32
        } else if num_cpus == 3 {
            0x0700u32
        } else if num_cpus == 4 {
            0x0f00u32
        } else if num_cpus == 5 {
            0x1f00u32
        } else if num_cpus == 6 {
            0x3f00u32
        } else {
            0x7f00u32
        },
{
}

/// The mask of the CPUs that a private interrupt goes to, see
/// [`spec_cpu_mask`].
#[verifier::when_used_as_spec(spec_cpu_mask)]
pub fn cpu_mask(num_cpus: u32) -> (mask: u32)
    ensures
        mask == spec_cpu_mask(num_cpus),
{
    if num_cpus >= 8 {
        GIC_FDT_IRQ_PPI_CPU_MASK
    } else {
        proof {
            lemma_cpu_mask(num_cpus);
            assert(1u32 << num_cpus >= 1u32) by (bit_vector)
                requires
                    num_cpus < 8,
            ;
        }
        (((1u32 << num_cpus) - 1) << GIC_FDT_IRQ_PPI_CPU_SHIFT) & GIC_FDT_IRQ_PPI_CPU_MASK
    }
}

/// The interrupt specifier of the timer interrupt `irq`: private, for the
/// CPUs of `mask`, triggered by a low level.
pub open spec fn timer_irq_cells(irq: u32, mask: u32) -> Seq<u32> {
    seq![GIC_FDT_IRQ_TYPE_PPI, irq, mask | IRQ_TYPE_LEVEL_LOW]
}

/// The interrupt specifiers of the timer interrupts `irqs`, one after the
/// other.
pub open spec fn timer_cells(irqs: Seq<u32>, mask: u32) -> Seq<u32>
    decreases irqs.len(),
{
    if irqs.len() == 0 {
        Seq::empty()
    } else {
        timer_cells(irqs.drop_last(), mask) + timer_irq_cells(irqs.last(), mask)
    }
}

/// The node of the timer, with its four fixed interrupts.
pub open spec fn timer_node(num_cpus: u32) -> Seq<FdtItemView> {
    seq![
        FdtItemView::BeginNode("timer"@),
        FdtItemView::Property("compatible"@, FdtValueView::Text("arm,armv8-timer"@)),
        FdtItemView::Property(
            "interrupts"@,
            FdtValueView::Cells32(
                timer_cells(seq![13u32, 14u32, 11u32, 10u32], spec_cpu_mask(num_cpus)),
            ),
        ),
        FdtItemView::Property("always-on"@, FdtValueView::Null),
        FdtItemView::EndNode,
    ]
}

/// Appends the node of the timer, see [`timer_node`].
pub fn create_timer_node(fdt: &mut Vec<FdtItem>, num_cpus: u32)
    ensures
        items(final(fdt)@) == items(old(fdt)@) + timer_node(num_cpus),
{
    // These are fixed interrupt numbers for the timer device.
    let irqs: [u32; 4] = [13, 14, 11, 10];
    let compatible = "arm,armv8-timer";
    let mask: u32 = cpu_mask(num_cpus);
    let mut timer_reg_cells: Vec<u32> = Vec::new();
    let mut i: usize = 0;
    assert(irqs@ =~= seq![13u32, 14u32, 11u32, 10u32]);
    while i < 4
        invariant
            0 <= i <= 4,
            irqs@.len() == 4,
            timer_reg_cells@ =~= timer_cells(irqs@.take(i as int), mask),
        decreases 4 - i,
    {
        proof {
            assert(irqs@.take(i + 1).drop_last() =~= irqs@.take(i as int));
            assert(irqs@.take(i + 1).last() == irqs@[i as int]);
        }
        timer_reg_cells.push(GIC_FDT_IRQ_TYPE_PPI);
        timer_reg_cells.push(irqs[i]);
        timer_reg_cells.push(mask | IRQ_TYPE_LEVEL_LOW);
        i += 1;
    }
    assert(irqs@.take(4) =~= irqs@);
    begin_node(fdt, "timer");
    property_string(fdt, "compatible", compatible);
    property(fdt, "interrupts", FdtValue::Cells32(timer_reg_cells));
    property_null(fdt, "always-on");
    end_node(fdt);
    assert(items(fdt@) =~= items(old(fdt)@) + timer_node(num_cpus));
}

/// The node of the serial device.
pub open spec fn serial_node(board: BoardLayout) -> Seq<FdtItemView> {
    seq![
        FdtItemView::BeginNode("U6_16550A@3f8"@),
        FdtItemView::Property("compatible"@, FdtValueView::Text("ns16550a"@)),
        FdtItemView::Property(
            "reg"@,
            FdtValueView::Cells64(seq![board.serial_addr, board.serial_size]),
        ),
        FdtItemView::Property("clock-frequency"@, FdtValueView::U32(board.serial_speed)),
        FdtItemView::Property(
            "interrupts"@,
            FdtValueView::Cells32(
                seq![GIC_FDT_IRQ_TYPE_SPI, board.serial_irq, IRQ_TYPE_EDGE_RISING],
            ),
        ),
        FdtItemView::EndNode,
    ]
}

/// Appends the node of the serial device, see [`serial_node`].
pub fn create_serial_node(fdt: &mut Vec<FdtItem>, board: &BoardLayout)
    ensures
        items(final(fdt)@) == items(old(fdt)@) + serial_node(*board),
{
    let mut serial_reg_prop: Vec<u64> = Vec::new();
    serial_reg_prop.push(board.serial_addr);
    serial_reg_prop.push(board.serial_size);
    assert(serial_reg_prop@ =~= seq![board.serial_addr, board.serial_size]);
    let mut irq: Vec<u32> = Vec::new();
    irq.push(GIC_FDT_IRQ_TYPE_SPI);
    irq.push(board.serial_irq);
    irq.push(IRQ_TYPE_EDGE_RISING);
    assert(irq@ =~= seq![GIC_FDT_IRQ_TYPE_SPI, board.serial_irq, IRQ_TYPE_EDGE_RISING]);
    begin_node(fdt, "U6_16550A@3f8");
    property_string(fdt, "compatible", "ns16550a");
    property(fdt, "reg", FdtValue::Cells64(serial_reg_prop));
    property_u32(fdt, "clock-frequency", board.serial_speed);
    property(fdt, "interrupts", FdtValue::Cells32(irq));
    end_node(fdt);
    assert(items(fdt@) =~= items(old(fdt)@) + serial_node(*board));
}

/// The node of the power state coordination interface, with the function
/// numbers of its calls.
pub open spec fn psci_node() -> Seq<FdtItemView> {
    seq![
        FdtItemView::BeginNode("psci"@),
        FdtItemView::Property("compatible"@, FdtValueView::Text("arm,psci-0.2"@)),
        FdtItemView::Property("method"@, FdtValueView::Text("hvc"@)),
        FdtItemView::Property("cpu_suspend"@, FdtValueView::U32(0xc4000001)),
        FdtItemView::Property("cpu_off"@, FdtValueView::U32(0x84000002)),
        FdtItemView::Property("cpu_on"@, FdtValueView::U32(0xc4000003)),
        FdtItemView::Property("migrate"@, FdtValueView::U32(0xc4000005)),
        FdtItemView::EndNode,
    ]
}

/// Appends the node of the power state coordination interface, see
/// [`psci_node`].
pub fn create_psci_node(fdt: &mut Vec<FdtItem>)
    ensures
        items(final(fdt)@) == items(old(fdt)@) + psci_node(),
{
    let compatible = "arm,psci-0.2";
    begin_node(fdt, "psci");
    property_string(fdt, "compatible", compatible);
    // Only 64-bit guests are supported
    property_string(fdt, "method", "hvc");
    property_u32(fdt, "cpu_suspend", 0xc4000001);
    property_u32(fdt, "cpu_off", 0x84000002);
    property_u32(fdt, "cpu_on", 0xc4000003);
    property_u32(fdt, "migrate", 0xc4000005);
    end_node(fdt);
    assert(items(fdt@) =~= items(old(fdt)@) + psci_node());
}

/// The node of what the boot loader hands to the kernel: the command line
/// among it.
pub open spec fn chosen_node(cmdline: Seq<u8>) -> Seq<FdtItemView> {
    seq![
        FdtItemView::BeginNode("chosen"@),
        FdtItemView::Property("linux,pci-probe-only"@, FdtValueView::U32(1)),
        FdtItemView::Property("bootargs"@, FdtValueView::Bytes(cmdline)),
        FdtItemView::Property("kaslr"@, FdtValueView::U64(0)),
        FdtItemView::EndNode,
    ]
}

/// Appends the node with the kernel's command line, see [`chosen_node`].
pub fn create_chosen_node(fdt: &mut Vec<FdtItem>, cmdline: &[u8])
    ensures
        items(final(fdt)@) == items(old(fdt)@) + chosen_node(cmdline@),
{
    let mut bootargs: Vec<u8> = Vec::new();
    bootargs.extend_from_slice(cmdline);
    assert(bootargs@ =~= cmdline@);
    begin_node(fdt, "chosen");
    property_u32(fdt, "linux,pci-probe-only", 1);
    property(fdt, "bootargs", FdtValue::Bytes(bootargs));
    property_u64(fdt, "kaslr", 0);
    end_node(fdt);
    assert(items(fdt@) =~= items(old(fdt)@) + chosen_node(cmdline@));
}

/// Adding modulo 2^32.
pub open spec fn add32(a: int, b: int) -> u32 {
    ((a + b) % 0x1_0000_0000) as u32
}

/// The entry of the interrupt map for the PCI device with number `device`
/// and pin `pin`, which is device `index` of the list: the device's address
/// with the device number from bit 11 on, the pin counted from 1, the
/// interrupt controller, and the shared interrupt `index` lines above the
/// board's first, triggered by a high level. Numbers that leave 32 bits
/// lose what is above.
pub open spec fn pci_irq_cells(
    board: BoardLayout,
    index: int,
    device: u32,
    pin: PciInterruptPin,
) -> Seq<u32> {
    seq![
        ((add32(device as int, 1) * 0x800) % 0x1_0000_0000) as u32,
        0,
        0,
        (pin.spec_to_mask() + 1) as u32,
        PHANDLE_GIC,
        0,
        0,
        GIC_FDT_IRQ_TYPE_SPI,
        add32(board.irq_base as int, index % 0x1_0000_0000),
        IRQ_TYPE_LEVEL_HIGH,
    ]
}

/// The interrupt map for the PCI devices `pci_irqs`: one entry for each, in
/// order.
pub open spec fn pci_interrupt_map(
    board: BoardLayout,
    pci_irqs: Seq<(u32, PciInterruptPin)>,
) -> Seq<u32>
    decreases pci_irqs.len(),
{
    if pci_irqs.len() == 0 {
        Seq::empty()
    } else {
        pci_interrupt_map(board, pci_irqs.drop_last()) + pci_irq_cells(
            board,
            pci_irqs.len() - 1,
            pci_irqs.last().0,
            pci_irqs.last().1,
        )
    }
}

/// The mask of the interrupt map for `count` devices: for each the bits of
/// the device number and of the pin.
pub open spec fn pci_interrupt_map_mask(count: nat) -> Seq<u32>
    decreases count,
{
    if count == 0 {
        Seq::empty()
    } else {
        pci_interrupt_map_mask((count - 1) as nat) + seq![0xf800u32, 0u32, 0u32, 0x7u32]
    }
}

/// The upper half of a 64-bit number.
pub open spec fn high32(v: u64) -> u32 {
    (v / 0x1_0000_0000) as u32
}

/// The lower half of a 64-bit number.
pub open spec fn low32(v: u64) -> u32 {
    (v % 0x1_0000_0000) as u32
}

fn split64(v: u64) -> (halves: (u32, u32))
    ensures
        halves == (high32(v), low32(v)),
{
    let high = #[verifier::truncate]
    ((v >> 32) as u32);
    let low = #[verifier::truncate]
    (v as u32);
    assert(high == v / 0x1_0000_0000) by (bit_vector)
        requires
            high == (v >> 32) as u32,
    ;
    assert(low == v % 0x1_0000_0000) by (bit_vector)
        requires
            low == v as u32,
    ;
    (high, low)
}

/// Appends the entry of the interrupt map for one PCI device, see
/// [`pci_irq_cells`].
fn push_pci_irq_cells(
    interrupts: &mut Vec<u32>,
    board: &BoardLayout,
    i: usize,
    device: u32,
    pin: PciInterruptPin,
)
    ensures
        final(interrupts)@ == old(interrupts)@ + pci_irq_cells(*board, i as int, device, pin),
{
    let next: u32 = device.wrapping_add(1);
    let address: u32 = #[verifier::truncate]
    (((next as u64) << 11) as u32);
    assert(address == ((next as int) * 0x800) % 0x1_0000_0000) by (bit_vector)
        requires
            address == ((next as u64) << 11) as u32,
    ;
    let index: u32 = #[verifier::truncate]
    (i as u32);
    assert(index == (i as int) % 0x1_0000_0000) by (bit_vector)
        requires
            index == i as u32,
    ;
    // PCI_DEVICE(3)
    interrupts.push(address);
    interrupts.push(0);
    interrupts.push(0);
    // INT#(1)
    interrupts.push(pin.to_mask() + 1);
    // CONTROLLER(PHANDLE)
    interrupts.push(PHANDLE_GIC);
    interrupts.push(0);
    interrupts.push(0);
    // CONTROLLER_DATA(3)
    interrupts.push(GIC_FDT_IRQ_TYPE_SPI);
    interrupts.push(board.irq_base.wrapping_add(index));
    interrupts.push(IRQ_TYPE_LEVEL_HIGH);
    assert(interrupts@ =~= old(interrupts)@ + pci_irq_cells(*board, i as int, device, pin));
}

/// Appends the mask of one entry of the interrupt map.
fn push_pci_irq_mask(masks: &mut Vec<u32>)
    ensures
        final(masks)@ == old(masks)@ + seq![0xf800u32, 0u32, 0u32, 0x7u32],
{
    // PCI_DEVICE(3)
    masks.push(0xf800);  // bits 11..15 (device)
    masks.push(0);
    masks.push(0);
    // INT#(1)
    masks.push(0x7);  // allow INTA#-INTD# (1 | 2 | 3 | 4)
    assert(masks@ =~= old(masks)@ + seq![0xf800u32, 0u32, 0u32, 0x7u32]);
}

/// The node of the PCI host controller: the window from bus addresses to
/// CPU addresses, bus 0 alone, the configuration space, and the interrupt
/// map of the devices `pci_irqs` with its mask.
pub open spec fn pci_node(board: BoardLayout, pci_irqs: Seq<(u32, PciInterruptPin)>) -> Seq<
    FdtItemView,
> {
    seq![
        FdtItemView::BeginNode("pci"@),
        FdtItemView::Property("compatible"@, FdtValueView::Text("pci-host-cam-generic"@)),
        FdtItemView::Property("device_type"@, FdtValueView::Text("pci"@)),
        FdtItemView::Property(
            "ranges"@,
            FdtValueView::Cells32(
                seq![
                    0x2000000u32,
                    high32(board.mmio_base),
                    low32(board.mmio_base),
                    high32(board.mmio_base),
                    low32(board.mmio_base),
                    high32(board.mmio_size),
                    low32(board.mmio_size),
                ],
            ),
        ),
        FdtItemView::Property("bus-range"@, FdtValueView::Cells32(seq![0u32, 0u32])),
        FdtItemView::Property("#address-cells"@, FdtValueView::U32(3)),
        FdtItemView::Property("#size-cells"@, FdtValueView::U32(2)),
        FdtItemView::Property(
            "reg"@,
            FdtValueView::Cells64(seq![board.pci_cfg_base, board.pci_cfg_size]),
        ),
        FdtItemView::Property("#interrupt-cells"@, FdtValueView::U32(1)),
        FdtItemView::Property(
            "interrupt-map"@,
            FdtValueView::Cells32(pci_interrupt_map(board, pci_irqs)),
        ),
        FdtItemView::Property(
            "interrupt-map-mask"@,
            FdtValueView::Cells32(pci_interrupt_map_mask(pci_irqs.len())),
        ),
        FdtItemView::EndNode,
    ]
}

/// Appends the node of the PCI host controller, see [`pci_node`].
pub fn create_pci_nodes(
    fdt: &mut Vec<FdtItem>,
    board: &BoardLayout,
    pci_irqs: Vec<(u32, PciInterruptPin)>,
)
    ensures
        items(final(fdt)@) == items(old(fdt)@) + pci_node(*board, pci_irqs@),
{
    let (mmio_base_high, mmio_base_low) = split64(board.mmio_base);
    let (mmio_size_high, mmio_size_low) = split64(board.mmio_size);
    let mut ranges: Vec<u32> = Vec::new();
    // bus address (ss = 01: 32-bit memory space)
    ranges.push(0x2000000);
    ranges.push(mmio_base_high);
    ranges.push(mmio_base_low);
    // CPU address
    ranges.push(mmio_base_high);
    ranges.push(mmio_base_low);
    // size
    ranges.push(mmio_size_high);
    ranges.push(mmio_size_low);
    assert(ranges@ =~= seq![
        0x2000000u32,
        high32(board.mmio_base),
        low32(board.mmio_base),
        high32(board.mmio_base),
        low32(board.mmio_base),
        high32(board.mmio_size),
        low32(board.mmio_size),
    ]);
    let mut bus_range: Vec<u32> = Vec::new();
    // Only bus 0
    bus_range.push(0);
    bus_range.push(0);
    assert(bus_range@ =~= seq![0u32, 0u32]);
    let mut reg: Vec<u64> = Vec::new();
    reg.push(board.pci_cfg_base);
    reg.push(board.pci_cfg_size);
    assert(reg@ =~= seq![board.pci_cfg_base, board.pci_cfg_size]);

    let mut interrupts: Vec<u32> = Vec::new();
    let mut masks: Vec<u32> = Vec::new();
    let mut i: usize = 0;
    while i < pci_irqs.len()
        invariant
            0 <= i <= pci_irqs.len(),
            interrupts@ =~= pci_interrupt_map(*board, pci_irqs@.take(i as int)),
            masks@ =~= pci_interrupt_map_mask(i as nat),
        decreases pci_irqs.len() - i,
    {
        let pci_irq = pci_irqs[i];
        proof {
            assert(pci_irqs@.take(i + 1).drop_last() =~= pci_irqs@.take(i as int));
            assert(pci_irqs@.take(i + 1).last() == pci_irqs@[i as int]);
        }
        push_pci_irq_cells(&mut interrupts, board, i, pci_irq.0, pci_irq.1);
        push_pci_irq_mask(&mut masks);
        i += 1;
    }
    assert(pci_irqs@.take(pci_irqs@.len() as int) =~= pci_irqs@);

    begin_node(fdt, "pci");
    property_string(fdt, "compatible", "pci-host-cam-generic");
    property_string(fdt, "device_type", "pci");
    property(fdt, "ranges", FdtValue::Cells32(ranges));
    property(fdt, "bus-range", FdtValue::Cells32(bus_range));
    property_u32(fdt, "#address-cells", 3);
    property_u32(fdt, "#size-cells", 2);
    property(fdt, "reg", FdtValue::Cells64(reg));
    property_u32(fdt, "#interrupt-cells", 1);
    property(fdt, "interrupt-map", FdtValue::Cells32(interrupts));
    property(fdt, "interrupt-map-mask", FdtValue::Cells32(masks));
    end_node(fdt);
    assert(items(fdt@) =~= items(old(fdt)@) + pci_node(*board, pci_irqs@));
}

/// The nodes of the real-time clock: a fixed clock, which the driver insists
/// on, and the clock device itself, named by its address.
pub open spec fn rtc_node(board: BoardLayout) -> Seq<FdtItemView> {
    seq![
        FdtItemView::BeginNode("pclk@3M"@),
        FdtItemView::Property("#clock-cells"@, FdtValueView::U32(0)),
        FdtItemView::Property("compatible"@, FdtValueView::Text("fixed-clock"@)),
        FdtItemView::Property("clock-frequency"@, FdtValueView::U32(3141592)),
        FdtItemView::Property("phandle"@, FdtValueView::U32(CLK_PHANDLE)),
        FdtItemView::EndNode,
        FdtItemView::BeginNode("rtc@"@ + hex(board.rtc_addr as nat)),
        FdtItemView::Property("compatible"@, FdtValueView::Text("arm,primecell"@)),
        FdtItemView::Property("arm,primecell-periphid"@, FdtValueView::U32(board.rtc_amba_id)),
        FdtItemView::Property("reg"@, FdtValueView::Cells64(seq![board.rtc_addr, board.rtc_size])),
        FdtItemView::Property(
            "interrupts"@,
            FdtValueView::Cells32(seq![GIC_FDT_IRQ_TYPE_SPI, board.rtc_irq, IRQ_TYPE_LEVEL_HIGH]),
        ),
        FdtItemView::Property("clocks"@, FdtValueView::U32(CLK_PHANDLE)),
        FdtItemView::Property("clock-names"@, FdtValueView::Text("apb_pclk"@)),
        FdtItemView::EndNode,
    ]
}

/// Appends the nodes of the real-time clock, see [`rtc_node`].
pub fn create_rtc_node(fdt: &mut Vec<FdtItem>, board: &BoardLayout)
    ensures
        items(final(fdt)@) == items(old(fdt)@) + rtc_node(*board),
{
    begin_node(fdt, "pclk@3M");
    property_u32(fdt, "#clock-cells", 0);
    property_string(fdt, "compatible", "fixed-clock");
    property_u32(fdt, "clock-frequency", 3141592);
    property_u32(fdt, "phandle", CLK_PHANDLE);
    end_node(fdt);

    let rtc_name = with_hex_suffix("rtc@", board.rtc_addr);
    let mut reg: Vec<u64> = Vec::new();
    reg.push(board.rtc_addr);
    reg.push(board.rtc_size);
    assert(reg@ =~= seq![board.rtc_addr, board.rtc_size]);
    let mut irq: Vec<u32> = Vec::new();
    irq.push(GIC_FDT_IRQ_TYPE_SPI);
    irq.push(board.rtc_irq);
    irq.push(IRQ_TYPE_LEVEL_HIGH);
    assert(irq@ =~= seq![GIC_FDT_IRQ_TYPE_SPI, board.rtc_irq, IRQ_TYPE_LEVEL_HIGH]);

    begin_node(fdt, rtc_name.as_str());
    property_string(fdt, "compatible", "arm,primecell");
    property_u32(fdt, "arm,primecell-periphid", board.rtc_amba_id);
    property(fdt, "reg", FdtValue::Cells64(reg));
    property(fdt, "interrupts", FdtValue::Cells32(irq));
    property_u32(fdt, "clocks", CLK_PHANDLE);
    property_string(fdt, "clock-names", "apb_pclk");
    end_node(fdt);
    assert(items(fdt@) =~= items(old(fdt)@) + rtc_node(*board));
}

/// The whole tree: one root node that holds the interrupt parent, the
/// machine's name and the cell sizes, and then the nodes of the command
/// line, the memory, the CPUs, the interrupt controller, the timer, the
/// serial device, the power interface, the PCI host and the real-time
/// clock, in this order.
pub open spec fn device_tree(
    board: BoardLayout,
    mem_size: u64,
    pci_irqs: Seq<(u32, PciInterruptPin)>,
    num_cpus: u32,
    cmdline: Seq<u8>,
) -> Seq<FdtItemView> {
    seq![
        FdtItemView::BeginNode(""@),
        FdtItemView::Property("interrupt-parent"@, FdtValueView::U32(PHANDLE_GIC)),
        FdtItemView::Property("compatible"@, FdtValueView::Text("linux,dummy-virt"@)),
        FdtItemView::Property("#address-cells"@, FdtValueView::U32(0x2)),
        FdtItemView::Property("#size-cells"@, FdtValueView::U32(0x2)),
    ] + chosen_node(cmdline) + memory_node(board, mem_size) + cpu_nodes(num_cpus) + gic_node(board)
        + timer_node(num_cpus) + serial_node(board) + psci_node() + pci_node(board, pci_irqs)
        + rtc_node(board) + seq![FdtItemView::EndNode]
}

/// How deep in the tree the writer stands after `items`, having started
/// `depth` nodes deep; or `None` where the items are no part of a tree,
/// because a node ends that never began, or a property stands outside any
/// node.
pub open spec fn nesting(items: Seq<FdtItemView>, depth: nat) -> Option<nat>
    decreases items.len(),
{
    if items.len() == 0 {
        Some(depth)
    } else {
        match nesting(items.drop_last(), depth) {
            None => None,
            Some(before) => match items.last() {
                FdtItemView::BeginNode(_) => Some(before + 1),
                FdtItemView::Property(_, _) => if before > 0 {
                    Some(before)
                } else {
                    None
                },
                FdtItemView::EndNode => if before > 0 {
                    Some((before - 1) as nat)
                } else {
                    None
                },
            },
        }
    }
}

/// Whether `items` are whole nodes, one after the other.
pub open spec fn whole_nodes(items: Seq<FdtItemView>) -> bool {
    forall|depth: nat| nesting(items, depth) == Some(depth)
}

/// Items are read one part after the other.
pub proof fn lemma_nesting_concat(a: Seq<FdtItemView>, b: Seq<FdtItemView>, depth: nat)
    ensures
        nesting(a + b, depth) == (match nesting(a, depth) {
            Some(middle) => nesting(b, middle),
            None => None,
        }),
    decreases b.len(),
{
    if b.len() == 0 {
        assert(a + b =~= a);
    } else {
        assert((a + b).drop_last() =~= a + b.drop_last());
        assert((a + b).last() == b.last());
        lemma_nesting_concat(a, b.drop_last(), depth);
    }
}

/// Whole nodes after whole nodes are whole nodes.
pub proof fn lemma_whole_nodes_concat(a: Seq<FdtItemView>, b: Seq<FdtItemView>)
    requires
        whole_nodes(a),
        whole_nodes(b),
    ensures
        whole_nodes(a + b),
{
    assert forall|depth: nat| nesting(a + b, depth) == Some(depth) by {
        lemma_nesting_concat(a, b, depth);
        assert(nesting(a, depth) == Some(depth));
        assert(nesting(b, depth) == Some(depth));
    }
}

/// A node that holds properties and then whole nodes is a whole node.
pub proof fn lemma_node(
    name: Seq<char>,
    properties: Seq<FdtItemView>,
    children: Seq<FdtItemView>,
)
    requires
        forall|i: int| 0 <= i < properties.len() ==> (#[trigger] properties[i]) is Property,
        whole_nodes(children),
    ensures
        whole_nodes(
            seq![FdtItemView::BeginNode(name)] + properties + children + seq![
                FdtItemView::EndNode,
            ],
        ),
{
    let begin = seq![FdtItemView::BeginNode(name)];
    let end = seq![FdtItemView::EndNode];
    assert forall|depth: nat| nesting(begin + properties + children + end, depth) == Some(
        depth,
    ) by {
        assert(begin.drop_last() =~= Seq::<FdtItemView>::empty());
        assert(nesting(begin.drop_last(), depth) == Some(depth));
        assert(nesting(begin, depth) == Some(depth + 1));
        lemma_properties_nesting(properties, depth + 1);
        lemma_nesting_concat(begin, properties, depth);
        assert(nesting(children, depth + 1) == Some(depth + 1));
        lemma_nesting_concat(begin + properties, children, depth);
        lemma_nesting_concat(begin + properties + children, end, depth);
        assert(end.drop_last() =~= Seq::<FdtItemView>::empty());
        assert(nesting(end.drop_last(), depth + 1) == Some(depth + 1));
        assert(nesting(end, depth + 1) == Some(depth));
    }
}

/// Properties inside a node leave the writer where it stands.
pub proof fn lemma_properties_nesting(properties: Seq<FdtItemView>, depth: nat)
    requires
        depth > 0,
        forall|i: int| 0 <= i < properties.len() ==> (#[trigger] properties[i]) is Property,
    ensures
        nesting(properties, depth) == Some(depth),
    decreases properties.len(),
{
    if properties.len() > 0 {
        let head = properties.drop_last();
        assert forall|i: int| 0 <= i < head.len() implies (#[trigger] head[i]) is Property by {
            assert(head[i] == properties[i]);
        }
        lemma_properties_nesting(head, depth);
        assert(properties.last() == properties[properties.len() - 1]);
    }
}

/// A node that holds nothing but properties is a whole node.
pub proof fn lemma_leaf_node(items: Seq<FdtItemView>)
    requires
        items.len() >= 2,
        items[0] is BeginNode,
        items[items.len() - 1] is EndNode,
        forall|i: int| 0 < i < items.len() - 1 ==> (#[trigger] items[i]) is Property,
    ensures
        whole_nodes(items),
{
    let name = items[0]->BeginNode_0;
    let properties = items.subrange(1, items.len() - 1);
    let children = Seq::<FdtItemView>::empty();
    assert forall|depth: nat| nesting(children, depth) == Some(depth) by {}
    lemma_node(name, properties, children);
    assert(items =~= seq![FdtItemView::BeginNode(name)] + properties + children + seq![
        FdtItemView::EndNode,
    ]);
}

/// The nodes of the CPUs are whole nodes.
pub proof fn lemma_cpu_node_list(num_cpus: u32, count: nat)
    ensures
        whole_nodes(cpu_node_list(num_cpus, count)),
    decreases count,
{
    if count == 0 {
        assert forall|depth: nat| nesting(cpu_node_list(num_cpus, count), depth) == Some(
            depth,
        ) by {}
    } else {
        lemma_cpu_node_list(num_cpus, (count - 1) as nat);
        lemma_leaf_node(cpu_node(num_cpus, (count - 1) as u32));
        lemma_whole_nodes_concat(
            cpu_node_list(num_cpus, (count - 1) as nat),
            cpu_node(num_cpus, (count - 1) as u32),
        );
    }
}

/// The tree that is written down is a tree: every node that begins ends,
/// every property stands in a node, and the root is the only node at the
/// top.
pub proof fn lemma_device_tree_is_a_tree(
    board: BoardLayout,
    mem_size: u64,
    pci_irqs: Seq<(u32, PciInterruptPin)>,
    num_cpus: u32,
    cmdline: Seq<u8>,
)
    ensures
        nesting(device_tree(board, mem_size, pci_irqs, num_cpus, cmdline), 0) == Some(0nat),
        whole_nodes(device_tree(board, mem_size, pci_irqs, num_cpus, cmdline)),
{
    let chosen = chosen_node(cmdline);
    let memory = memory_node(board, mem_size);
    let cpus = cpu_nodes(num_cpus);
    let gic = gic_node(board);
    let timer = timer_node(num_cpus);
    let serial = serial_node(board);
    let psci = psci_node();
    let pci = pci_node(board, pci_irqs);
    let rtc = rtc_node(board);
    lemma_leaf_node(chosen);
    lemma_leaf_node(memory);
    assert(whole_nodes(cpus)) by {
        lemma_cpu_node_list(num_cpus, num_cpus as nat);
        let properties = seq![
            FdtItemView::Property("#address-cells"@, FdtValueView::U32(0x1)),
            FdtItemView::Property("#size-cells"@, FdtValueView::U32(0x0)),
        ];
        lemma_node("cpus"@, properties, cpu_node_list(num_cpus, num_cpus as nat));
        assert(cpus =~= seq![FdtItemView::BeginNode("cpus"@)] + properties + cpu_node_list(
            num_cpus,
            num_cpus as nat,
        ) + seq![FdtItemView::EndNode]);
    }
    lemma_leaf_node(gic);
    lemma_leaf_node(timer);
    lemma_leaf_node(serial);
    lemma_leaf_node(psci);
    lemma_leaf_node(pci);
    assert(whole_nodes(rtc)) by {
        let clock = rtc.subrange(0, 6);
        let device = rtc.subrange(6, 14);
        lemma_leaf_node(clock);
        lemma_leaf_node(device);
        lemma_whole_nodes_concat(clock, device);
        assert(rtc =~= clock + device);
    }
    let children = chosen + memory + cpus + gic + timer + serial + psci + pci + rtc;
    lemma_whole_nodes_concat(chosen, memory);
    lemma_whole_nodes_concat(chosen + memory, cpus);
    lemma_whole_nodes_concat(chosen + memory + cpus, gic);
    lemma_whole_nodes_concat(chosen + memory + cpus + gic, timer);
    lemma_whole_nodes_concat(chosen + memory + cpus + gic + timer, serial);
    lemma_whole_nodes_concat(chosen + memory + cpus + gic + timer + serial, psci);
    lemma_whole_nodes_concat(chosen + memory + cpus + gic + timer + serial + psci, pci);
    lemma_whole_nodes_concat(chosen + memory + cpus + gic + timer + serial + psci + pci, rtc);
    let properties = seq![
        FdtItemView::Property("interrupt-parent"@, FdtValueView::U32(PHANDLE_GIC)),
        FdtItemView::Property("compatible"@, FdtValueView::Text("linux,dummy-virt"@)),
        FdtItemView::Property("#address-cells"@, FdtValueView::U32(0x2)),
        FdtItemView::Property("#size-cells"@, FdtValueView::U32(0x2)),
    ];
    lemma_node(""@, properties, children);
    assert(device_tree(board, mem_size, pci_irqs, num_cpus, cmdline) =~= seq![
        FdtItemView::BeginNode(""@),
    ] + properties + children + seq![FdtItemView::EndNode]);
}

/// Why a device tree could not be handed to the guest.
#[derive(Clone, Copy, Debug, PartialEq, Eq, Structural)]
pub enum FdtError {
    /// The tree does not fit into guest memory at its address.
    FdtGuestMemoryWriteError,
}

/// A device tree together with where it goes: the blob made of `items` is
/// padded to `max_size` bytes and written to guest memory at `address`.
#[derive(Debug, PartialEq, Eq)]
pub struct Fdt {
    pub items: Vec<FdtItem>,
    pub max_size: usize,
    pub address: GuestAddress,
}

/// The device tree of a guest with the given memory, PCI devices, number of
/// CPUs and kernel command line, see [`device_tree`], to be written
/// `fdt_load_offset` bytes after the start of DRAM in a blob of
/// `fdt_max_size` bytes. What is written down is a tree, see [`nesting`].
/// Fails where that address is past the 64-bit range.
pub fn create_fdt(
    fdt_max_size: usize,
    guest_mem: &GuestMemory,
    pci_irqs: Vec<(u32, PciInterruptPin)>,
    num_cpus: u32,
    fdt_load_offset: u64,
    cmdline: &[u8],
    board: &BoardLayout,
) -> (r: Result<Fdt, FdtError>)
    requires
        guest_mem.wf(),
    ensures
        board.phys_mem_start + fdt_load_offset > u64::MAX ==> r == Err::<Fdt, _>(
            FdtError::FdtGuestMemoryWriteError,
        ),
        board.phys_mem_start + fdt_load_offset <= u64::MAX ==> {
            &&& r is Ok
            &&& items(r->Ok_0.items@) == device_tree(
                *board,
                total_size(guest_mem@) as u64,
                pci_irqs@,
                num_cpus,
                cmdline@,
            )
            &&& nesting(items(r->Ok_0.items@), 0) == Some(0nat)
            &&& r->Ok_0.max_size == fdt_max_size
            &&& r->Ok_0.address == GuestAddress((board.phys_mem_start + fdt_load_offset) as u64)
        },
{
    let fdt_address = match GuestAddress(board.phys_mem_start).checked_add(fdt_load_offset) {
        Some(address) => address,
        None => {
            return Err(FdtError::FdtGuestMemoryWriteError);
        },
    };
    let mut fdt: Vec<FdtItem> = Vec::new();
    let ghost pci = pci_irqs@;

    // The whole thing is put into one giant node with some top level properties
    begin_node(&mut fdt, "");
    property_u32(&mut fdt, "interrupt-parent", PHANDLE_GIC);
    property_string(&mut fdt, "compatible", "linux,dummy-virt");
    property_u32(&mut fdt, "#address-cells", 0x2);
    property_u32(&mut fdt, "#size-cells", 0x2);

    create_chosen_node(&mut fdt, cmdline);
    create_memory_node(&mut fdt, board, guest_mem);
    create_cpu_nodes(&mut fdt, num_cpus);
    create_gic_node(&mut fdt, board);
    create_timer_node(&mut fdt, num_cpus);
    create_serial_node(&mut fdt, board);
    create_psci_node(&mut fdt);
    create_pci_nodes(&mut fdt, board, pci_irqs);
    create_rtc_node(&mut fdt, board);
    // End giant node
    end_node(&mut fdt);
    assert(items(fdt@) =~= device_tree(
        *board,
        total_size(guest_mem@) as u64,
        pci,
        num_cpus,
        cmdline@,
    ));
    proof {
        lemma_device_tree_is_a_tree(
            *board,
            total_size(guest_mem@) as u64,
            pci,
            num_cpus,
            cmdline@,
        );
    }
    Ok(Fdt { items: fdt, max_size: fdt_max_size, address: fdt_address })
}

/// Outcome of writing the blob of a device tree into guest memory, given
/// the number of bytes that were written: fewer than the blob's size is a
/// failure.
pub fn fdt_written(written: usize, fdt_max_size: usize) -> (r: Result<(), FdtError>)
    ensures
        r == (if written < fdt_max_size {
            Err::<(), FdtError>(FdtError::FdtGuestMemoryWriteError)
        } else {
            Ok(())
        }),
{
    if written < fdt_max_size {
        return Err(FdtError::FdtGuestMemoryWriteError);
    }
    Ok(())
}

} // verus!