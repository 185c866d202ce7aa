//! Interrupt plumbing: the requests that set an interrupt line, bind an event
//! to a global system interrupt (GSI), and replace the GSI routing table.

use vstd::prelude::*;
use crate::abi::{
    KvmIrqLevel, KvmIrqRouting, KvmIrqRoutingEntry, KvmIrqRoutingSource, KvmIrqfd,
    KVM_IRQCHIP_IOAPIC, KVM_IRQCHIP_PIC_MASTER, KVM_IRQCHIP_PIC_SLAVE, KVM_IRQFD_FLAG_DEASSIGN,
    KVM_IRQFD_FLAG_RESAMPLE, KVM_IRQ_ROUTING_IRQCHIP, KVM_IRQ_ROUTING_MSI,
};
use crate::sys::{descriptor_bits, descriptor_field, Error, RawDescriptor, SysReturn};
use crate::vm::KvmVm;

verus! {

/// An in-kernel interrupt controller.
#[derive(Clone, Copy, Debug, PartialEq, Eq, Structural)]
pub enum IrqSourceChip {
    PicPrimary,
    PicSecondary,
    Ioapic,
    Gic,
}

/// Where an interrupt comes from.
#[derive(Clone, Copy, Debug, PartialEq, Eq, Structural)]
pub enum IrqSource {
    /// A pin of an in-kernel interrupt controller.
    Irqchip { chip: IrqSourceChip, pin: u32 },
    /// A message-signaled interrupt.
    Msi { address: u64, data: u32 },
}

/// One route: the interrupts of `source` arrive as global system interrupt
/// `gsi`.
#[derive(Clone, Copy, Debug, PartialEq, Eq, Structural)]
pub struct IrqRoute {
    pub gsi: u32,
    pub source: IrqSource,
}

/// The kernel's number for an interrupt controller. The generic interrupt
/// controller is the only one of its platform and has number 0.
pub open spec fn spec_chip_to_kvm_chip(chip: IrqSourceChip) -> u32 {
    match chip {
        IrqSourceChip::PicPrimary => KVM_IRQCHIP_PIC_MASTER,
        IrqSourceChip::PicSecondary => KVM_IRQCHIP_PIC_SLAVE,
        IrqSourceChip::Ioapic => KVM_IRQCHIP_IOAPIC,
        IrqSourceChip::Gic => 0,
    }
}

/// The kernel's number for an interrupt controller.
#[verifier::when_used_as_spec(spec_chip_to_kvm_chip)]
pub fn chip_to_kvm_chip(chip: IrqSourceChip) -> (n: u32)
    ensures
        n == spec_chip_to_kvm_chip(chip),
{
    match chip {
        IrqSourceChip::PicPrimary => KVM_IRQCHIP_PIC_MASTER,
        IrqSourceChip::PicSecondary => KVM_IRQCHIP_PIC_SLAVE,
        IrqSourceChip::Ioapic => KVM_IRQCHIP_IOAPIC,
        IrqSourceChip::Gic => 0,
    }
}

/// The routing entry that the kernel takes for `route`.
pub open spec fn routing_entry(route: IrqRoute) -> KvmIrqRoutingEntry {
    match route.source {
        IrqSource::Irqchip { chip, pin } => KvmIrqRoutingEntry {
            gsi: route.gsi,
            type_: KVM_IRQ_ROUTING_IRQCHIP,
            flags: 0,
            pad: 0,
            u: KvmIrqRoutingSource::Irqchip { irqchip: spec_chip_to_kvm_chip(chip), pin },
        },
        IrqSource::Msi { address, data } => KvmIrqRoutingEntry {
            gsi: route.gsi,
            type_: KVM_IRQ_ROUTING_MSI,
            flags: 0,
            pad: 0,
            u: KvmIrqRoutingSource::Msi {
                address_lo: (address % 0x1_0000_0000) as u32,
                address_hi: (address / 0x1_0000_0000) as u32,
                data,
                pad: 0,
            },
        },
    }
}

impl KvmIrqRoutingEntry {
    /// Whether the tag of the entry names the variant that the entry holds.
    pub open spec fn tag_matches(self) -> bool {
        match self.u {
            KvmIrqRoutingSource::Irqchip { .. } => self.type_ == KVM_IRQ_ROUTING_IRQCHIP,
            KvmIrqRoutingSource::Msi { .. } => self.type_ == KVM_IRQ_ROUTING_MSI,
        }
    }

    /// The routing entry that the kernel takes for `item`: the same GSI, the
    /// tag of the source's kind, and the source's fields, a message-signaled
    /// address split into its low and high halves.
    pub fn from(item: &IrqRoute) -> (entry: KvmIrqRoutingEntry)
        ensures
            entry == routing_entry(*item),
            entry.tag_matches(),
    {
        match item.source {
            IrqSource::Irqchip { chip, pin } => KvmIrqRoutingEntry {
                gsi: item.gsi,
                type_: KVM_IRQ_ROUTING_IRQCHIP,
                flags: 0,
                pad: 0,
                u: KvmIrqRoutingSource::Irqchip { irqchip: chip_to_kvm_chip(chip), pin },
            },
            IrqSource::Msi { address, data } => {
                let address_lo = #[verifier::truncate]
                (address as u32);
                let address_hi = #[verifier::truncate]
                ((address >> 32) as u32);
                assert(address_lo == address % 0x1_0000_0000) by (bit_vector)
                    requires
                        address_lo == address as u32,
                ;
                assert(address_hi == address / 0x1_0000_0000) by (bit_vector)
                    requires
                        address_hi == (address >> 32) as u32,
                ;
                KvmIrqRoutingEntry {
                    gsi: item.gsi,
                    type_: KVM_IRQ_ROUTING_MSI,
                    flags: 0,
                    pad: 0,
                    u: KvmIrqRoutingSource::Msi { address_lo, address_hi, data, pad: 0 },
                }
            },
        }
    }
}

/// The request that binds event `evt` to `gsi`. With a resample event the
/// request carries the resample flag and that event's descriptor.
pub open spec fn irqfd_request(
    gsi: u32,
    evt: RawDescriptor,
    resample_evt: Option<RawDescriptor>,
) -> KvmIrqfd {
    match resample_evt {
        Some(r_evt) => KvmIrqfd {
            fd: descriptor_bits(evt),
            gsi,
            flags: KVM_IRQFD_FLAG_RESAMPLE,
            resamplefd: descriptor_bits(r_evt),
        },
        None => KvmIrqfd { fd: descriptor_bits(evt), gsi, flags: 0, resamplefd: 0 },
    }
}

/// The entries that the kernel takes for `routes`, in the same order.
pub open spec fn routing_entries(routes: Seq<IrqRoute>) -> Seq<KvmIrqRoutingEntry> {
    Seq::new(routes.len(), |i: int| routing_entry(routes[i]))
}

/// Every entry made from a route carries the tag of the variant it holds.
pub proof fn lemma_routing_entries_tagged(routes: Seq<IrqRoute>, i: int)
    requires
        0 <= i < routes.len(),
    ensures
        routing_entries(routes)[i].tag_matches(),
        routing_entries(routes)[i].gsi == routes[i].gsi,
        routes[i].source is Irqchip <==> routing_entries(routes)[i].type_
            == KVM_IRQ_ROUTING_IRQCHIP,
        routes[i].source is Msi <==> routing_entries(routes)[i].type_ == KVM_IRQ_ROUTING_MSI,
{
}

impl<M> KvmVm<M> {
    /// Outcome of creating the in-kernel interrupt controller, given the
    /// kernel's answer. The request has no parameters. What a second
    /// creation does is the kernel's matter, and its answer is passed on as
    /// it is.
    pub fn create_irq_chip(&self, ret: SysReturn) -> (r: Result<(), Error>)
        ensures
            r == ret.spec_status(),
    {
        ret.status()
    }

    /// What to ask the kernel in order to set line `irq` to level 1 if
    /// `active`, and to 0 otherwise.
    pub fn set_irq_line_request(&self, irq: u32, active: bool) -> (request: KvmIrqLevel)
        ensures
            request == (KvmIrqLevel { irq, level: if active { 1u32 } else { 0u32 } }),
    {
        KvmIrqLevel { irq, level: if active { 1 } else { 0 } }
    }

    /// Outcome of setting line `irq`, given the kernel's answer to the
    /// request of [`KvmVm::set_irq_line_request`].
    pub fn set_irq_line(&self, irq: u32, active: bool, ret: SysReturn) -> (r: Result<(), Error>)
        ensures
            r == ret.spec_status(),
    {
        ret.status()
    }

    /// What to ask the kernel in order to bind event `evt` to `gsi`, so that
    /// signaling the event injects the interrupt. `resample_evt`, if given,
    /// is signaled when the guest acknowledges a level-triggered interrupt.
    pub fn register_irqfd_request(
        &self,
        gsi: u32,
        evt: RawDescriptor,
        resample_evt: Option<RawDescriptor>,
    ) -> (request: KvmIrqfd)
        ensures
            request == irqfd_request(gsi, evt, resample_evt),
    {
        let mut irqfd = KvmIrqfd { fd: descriptor_field(evt), gsi, flags: 0, resamplefd: 0 };
        if let Some(r_evt) = resample_evt {
            irqfd.flags = KVM_IRQFD_FLAG_RESAMPLE;
            irqfd.resamplefd = descriptor_field(r_evt);
        }
        irqfd
    }

    /// Outcome of binding event `evt` to `gsi`, given the kernel's answer to
    /// the request of [`KvmVm::register_irqfd_request`]. The bindings are
    /// the kernel's: which pairs it refuses, such as one that is bound
    /// already, shows in its answer alone.
    pub fn register_irqfd(
        &self,
        gsi: u32,
        evt: RawDescriptor,
        resample_evt: Option<RawDescriptor>,
        ret: SysReturn,
    ) -> (r: Result<(), Error>)
        ensures
            r == ret.spec_status(),
    {
        ret.status()
    }

    /// What to ask the kernel in order to remove the binding of event `evt`
    /// to `gsi`. The pair must be the one that was bound.
    pub fn unregister_irqfd_request(&self, gsi: u32, evt: RawDescriptor) -> (request: KvmIrqfd)
        ensures
            request == (KvmIrqfd {
                fd: descriptor_bits(evt),
                gsi,
                flags: KVM_IRQFD_FLAG_DEASSIGN,
                resamplefd: 0,
            }),
    {
        KvmIrqfd { fd: descriptor_field(evt), gsi, flags: KVM_IRQFD_FLAG_DEASSIGN, resamplefd: 0 }
    }

    /// Outcome of removing the binding of event `evt` to `gsi`, given the
    /// kernel's answer to the request of
    /// [`KvmVm::unregister_irqfd_request`].
    pub fn unregister_irqfd(&self, gsi: u32, evt: RawDescriptor, ret: SysReturn) -> (r: Result<
        (),
        Error,
    >)
        ensures
            r == ret.spec_status(),
    {
        ret.status()
    }

    /// The table to hand to the kernel in order to replace the whole routing
    /// table with `routes`: it announces and holds one entry for each route,
    /// in the same order, see [`KvmIrqRouting::words`] for its layout. Fails
    /// with `Overflow` where the number of routes does not fit the table's
    /// 32-bit count.
    pub fn set_gsi_routing_request(&self, routes: &[IrqRoute]) -> (r: Result<KvmIrqRouting, Error>)
        ensures
            routes@.len() <= u32::MAX ==> r is Ok && r->Ok_0@ == routing_entries(routes@)
                && r->Ok_0.wf() && r->Ok_0.spec_nr() == routes@.len() && r->Ok_0.spec_flags()
                == 0,
            routes@.len() > u32::MAX ==> r == Err::<KvmIrqRouting, _>(Error::Overflow),
    {
        let mut entries: Vec<KvmIrqRoutingEntry> = Vec::new();
        let mut i: usize = 0;
        while i < routes.len()
            invariant
                0 <= i <= routes.len(),
                entries@ =~= routing_entries(routes@).take(i as int),
            decreases routes.len() - i,
        {
            entries.push(KvmIrqRoutingEntry::from(&routes[i]));
            i += 1;
        }
        assert(routing_entries(routes@).take(routes@.len() as int) =~= routing_entries(routes@));
        match KvmIrqRouting::new(entries) {
            Some(table) => Ok(table),
            None => Err(Error::Overflow),
        }
    }

    /// Outcome of replacing the routing table with `routes`, given the
    /// kernel's answer to the request of
    /// [`KvmVm::set_gsi_routing_request`]. Where no table could be made, the
    /// kernel was not asked and the reason is returned, whatever `ret`
    /// holds.
    pub fn set_gsi_routing(&self, routes: &[IrqRoute], ret: SysReturn) -> (r: Result<(), Error>)
        ensures
            r == (if routes@.len() > u32::MAX {
                Err::<(), Error>(Error::Overflow)
            } else {
                ret.spec_status()
            }),
    {
        if routes.len() > 0xffff_ffff {
            return Err(Error::Overflow);
        }
        ret.status()
    }
}

} // verus!
