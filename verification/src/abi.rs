//! The requests that the kernel's virtualization interface takes, as plain
//! values, and the constants that go into them. The caller lays a request out
//! in memory and issues the system call.

use vstd::prelude::*;

verus! {

/// Flag of a memory region: the kernel tracks which pages the guest writes.
pub const KVM_MEM_LOG_DIRTY_PAGES: u32 = 1;

/// Flag of a memory region: the guest cannot write to it.
pub const KVM_MEM_READONLY: u32 = 2;

/// Flag of an irqfd request: remove the binding instead of making it.
pub const KVM_IRQFD_FLAG_DEASSIGN: u32 = 1;

/// Flag of an irqfd request: the request carries a resample event.
pub const KVM_IRQFD_FLAG_RESAMPLE: u32 = 2;

/// Type of a routing entry whose source is a pin of an interrupt controller.
pub const KVM_IRQ_ROUTING_IRQCHIP: u32 = 1;

/// Type of a routing entry whose source is a message-signaled interrupt.
pub const KVM_IRQ_ROUTING_MSI: u32 = 2;

/// The primary programmable interrupt controller.
pub const KVM_IRQCHIP_PIC_MASTER: u32 = 0;

/// The secondary programmable interrupt controller.
pub const KVM_IRQCHIP_PIC_SLAVE: u32 = 1;

/// The I/O advanced programmable interrupt controller.
pub const KVM_IRQCHIP_IOAPIC: u32 = 2;

/// Device type of a VFIO device.
pub const KVM_DEV_TYPE_VFIO: u32 = 4;

/// Request to create, change or delete the mapping of one slot from guest
/// physical memory to host memory. A size of 0 deletes the slot.
#[derive(Clone, Copy, Debug, PartialEq, Eq, Structural)]
pub struct UserMemoryRegion {
    pub slot: u32,
    pub flags: u32,
    pub guest_phys_addr: u64,
    pub memory_size: u64,
    pub userspace_addr: u64,
}

/// The flags of a memory region that is read-only or not, and whose dirty
/// pages are logged or not.
pub open spec fn memory_region_flags(read_only: bool, log_dirty_pages: bool) -> u32 {
    match (read_only, log_dirty_pages) {
        (false, false) => 0,
        (false, true) => KVM_MEM_LOG_DIRTY_PAGES,
        (true, false) => KVM_MEM_READONLY,
        (true, true) => 3,
    }
}

/// The request that maps `memory_size` bytes of host memory at
/// `userspace_addr` into the guest at `guest_addr`, under `slot`.
pub fn set_user_memory_region(
    slot: u32,
    read_only: bool,
    log_dirty_pages: bool,
    guest_addr: u64,
    memory_size: u64,
    userspace_addr: u64,
) -> (region: UserMemoryRegion)
    ensures
        region == (UserMemoryRegion {
            slot,
            flags: memory_region_flags(read_only, log_dirty_pages),
            guest_phys_addr: guest_addr,
            memory_size,
            userspace_addr,
        }),
{
    let mut flags: u32 = if read_only {
        KVM_MEM_READONLY
    } else {
        0
    };
    if log_dirty_pages {
        flags |= KVM_MEM_LOG_DIRTY_PAGES;
        assert(0u32 | 1u32 == 1u32) by (bit_vector);
        assert(2u32 | 1u32 == 3u32) by (bit_vector);
    }
    UserMemoryRegion {
        slot,
        flags,
        guest_phys_addr: guest_addr,
        memory_size,
        userspace_addr,
    }
}

/// Request to set the level of an interrupt line.
#[derive(Clone, Copy, Debug, PartialEq, Eq, Structural)]
pub struct KvmIrqLevel {
    pub irq: u32,
    pub level: u32,
}

/// Request to bind an event to a global system interrupt, or to remove such
/// a binding.
#[derive(Clone, Copy, Debug, PartialEq, Eq, Structural)]
pub struct KvmIrqfd {
    pub fd: u32,
    pub gsi: u32,
    pub flags: u32,
    pub resamplefd: u32,
}

/// The source of a routing entry, as the kernel's tagged union holds it.
#[derive(Clone, Copy, Debug, PartialEq, Eq, Structural)]
pub enum KvmIrqRoutingSource {
    /// A pin of an in-kernel interrupt controller.
    Irqchip { irqchip: u32, pin: u32 },
    /// A message-signaled interrupt.
    Msi { address_lo: u32, address_hi: u32, data: u32, pad: u32 },
}

/// One entry of the routing table. `type_` is the tag of `u`.
#[derive(Clone, Copy, Debug, PartialEq, Eq, Structural)]
pub struct KvmIrqRoutingEntry {
    pub gsi: u32,
    pub type_: u32,
    pub flags: u32,
    pub pad: u32,
    pub u: KvmIrqRoutingSource,
}

/// Request to replace the routing table: a count, followed by as many
/// entries.
#[derive(Debug, PartialEq, Eq)]
pub struct KvmIrqRouting {
    nr: u32,
    flags: u32,
    entries: Vec<KvmIrqRoutingEntry>,
}

impl View for KvmIrqRouting {
    type V = Seq<KvmIrqRoutingEntry>;

    closed spec fn view(&self) -> Seq<KvmIrqRoutingEntry> {
        self.entries@
    }
}

impl KvmIrqRouting {
    /// The count that the table announces.
    pub closed spec fn spec_nr(&self) -> u32 {
        self.nr
    }

    /// The flags of the table.
    pub closed spec fn spec_flags(&self) -> u32 {
        self.flags
    }

    /// The invariant of the type: the table announces as many entries as it
    /// holds.
    pub open spec fn wf(&self) -> bool {
        self.spec_nr() == self@.len()
    }

    /// A table of the given entries, or `None` where their number does not
    /// fit the table's 32-bit count. Count and entries are set together.
    pub fn new(entries: Vec<KvmIrqRoutingEntry>) -> (table: Option<KvmIrqRouting>)
        ensures
            entries@.len() <= u32::MAX ==> table is Some && table->Some_0@ == entries@
                && table->Some_0.wf() && table->Some_0.spec_flags() == 0,
            entries@.len() > u32::MAX ==> table is None,
    {
        let n = entries.len();
        if n > 0xffff_ffff {
            None
        } else {
            Some(KvmIrqRouting { nr: n as u32, flags: 0, entries })
        }
    }

    /// The count that the table announces.
    #[verifier::when_used_as_spec(spec_nr)]
    pub fn nr(&self) -> (nr: u32)
        ensures
            nr == self.spec_nr(),
    {
        self.nr
    }

    /// The flags of the table.
    #[verifier::when_used_as_spec(spec_flags)]
    pub fn flags(&self) -> (flags: u32)
        ensures
            flags == self.spec_flags(),
    {
        self.flags
    }

    /// The entries, in the order in which they go to the kernel.
    pub fn entries(&self) -> (entries: &Vec<KvmIrqRoutingEntry>)
        ensures
            entries@ == self@,
    {
        &self.entries
    }
}

/// The number of 32-bit words of the table's head: the count and the flags.
pub const ROUTING_HEAD_WORDS: usize = 2;

/// The number of 32-bit words of one routing entry: four for its own
/// fields, eight for the source.
pub const ROUTING_ENTRY_WORDS: usize = 12;

/// The source of a routing entry as the eight words that the kernel reads:
/// the fields of the variant first, zeros behind them.
pub open spec fn source_words(source: KvmIrqRoutingSource) -> Seq<u32> {
    match source {
        KvmIrqRoutingSource::Irqchip { irqchip, pin } => seq![irqchip, pin, 0, 0, 0, 0, 0, 0],
        KvmIrqRoutingSource::Msi { address_lo, address_hi, data, pad } => seq![
            address_lo,
            address_hi,
            data,
            pad,
            0,
            0,
            0,
            0,
        ],
    }
}

/// A routing entry as the twelve words that the kernel reads.
pub open spec fn entry_words(entry: KvmIrqRoutingEntry) -> Seq<u32> {
    seq![entry.gsi, entry.type_, entry.flags, entry.pad] + source_words(entry.u)
}

/// The words of `entries`, one entry after the other.
pub open spec fn entries_words(entries: Seq<KvmIrqRoutingEntry>) -> Seq<u32>
    decreases entries.len(),
{
    if entries.len() == 0 {
        Seq::empty()
    } else {
        entries_words(entries.drop_last()) + entry_words(entries.last())
    }
}

/// The words of some entries are twelve for each, and those of entry `i`
/// begin at word `12 * i`.
pub proof fn lemma_entries_words(entries: Seq<KvmIrqRoutingEntry>, i: int)
    requires
        0 <= i < entries.len(),
    ensures
        entries_words(entries).len() == 12 * entries.len(),
        entries_words(entries).subrange(12 * i, 12 * i + 12) == entry_words(entries[i]),
    decreases entries.len(),
{
    let head = entries.drop_last();
    lemma_entries_words_len(head);
    if i == entries.len() - 1 {
        assert(entries_words(entries).subrange(12 * i, 12 * i + 12) =~= entry_words(
            entries.last(),
        ));
    } else {
        lemma_entries_words(head, i);
        assert(entries_words(entries).subrange(12 * i, 12 * i + 12) =~= entries_words(
            head,
        ).subrange(12 * i, 12 * i + 12));
    }
}

/// The words of some entries are twelve for each.
pub proof fn lemma_entries_words_len(entries: Seq<KvmIrqRoutingEntry>)
    ensures
        entries_words(entries).len() == 12 * entries.len(),
    decreases entries.len(),
{
    if entries.len() > 0 {
        lemma_entries_words_len(entries.drop_last());
    }
}

impl KvmIrqRouting {
    /// The table as the kernel reads it, in 32-bit words: the count, the
    /// flags, and behind them the entries, twelve words each.
    pub open spec fn spec_words(&self) -> Seq<u32> {
        seq![self.spec_nr(), self.spec_flags()] + entries_words(self@)
    }

    /// The table as the kernel reads it, in 32-bit words, see
    /// [`KvmIrqRouting::spec_words`]. Every field of the table is one word,
    /// so the words in the machine's memory are the table byte for byte.
    pub fn words(&self) -> (words: Vec<u32>)
        ensures
            words@ == self.spec_words(),
            words@.len() == ROUTING_HEAD_WORDS + ROUTING_ENTRY_WORDS * self@.len(),
    {
        let mut words: Vec<u32> = Vec::new();
        words.push(self.nr);
        words.push(self.flags);
        let mut i: usize = 0;
        proof {
            lemma_entries_words_len(self@);
        }
        while i < self.entries.len()
            invariant
                0 <= i <= self.entries.len(),
                words@ =~= seq![self.spec_nr(), self.spec_flags()] + entries_words(
                    self@.take(i as int),
                ),
            decreases self.entries.len() - i,
        {
            let entry = self.entries[i];
            proof {
                assert(self@.take(i + 1).drop_last() =~= self@.take(i as int));
                assert(self@.take(i + 1).last() == entry);
            }
            push_entry_words(&mut words, entry);
            i += 1;
        }
        assert(self@.take(self@.len() as int) =~= self@);
        words
    }
}

/// Appends the twelve words of `entry`.
fn push_entry_words(words: &mut Vec<u32>, entry: KvmIrqRoutingEntry)
    ensures
        final(words)@ == old(words)@ + entry_words(entry),
{
    words.push(entry.gsi);
    words.push(entry.type_);
    words.push(entry.flags);
    words.push(entry.pad);
    match entry.u {
        KvmIrqRoutingSource::Irqchip { irqchip, pin } => {
            words.push(irqchip);
            words.push(pin);
            words.push(0);
            words.push(0);
        },
        KvmIrqRoutingSource::Msi { address_lo, address_hi, data, pad } => {
            words.push(address_lo);
            words.push(address_hi);
            words.push(data);
            words.push(pad);
        },
    }
    words.push(0);
    words.push(0);
    words.push(0);
    words.push(0);
    assert(words@ =~= old(words)@ + entry_words(entry));
}

/// Request to create an in-kernel device.
#[derive(Clone, Copy, Debug, PartialEq, Eq, Structural)]
pub struct KvmCreateDevice {
    pub type_: u32,
    pub fd: u32,
    pub flags: u32,
}

} // verus!
