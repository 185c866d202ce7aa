//! Hypervisor abstraction layer of a virtual machine monitor, written so that
//! every decision it takes is stated in a contract and proved.
//!
//! The library never talks to the kernel itself. Each operation that needs the
//! kernel comes as a pair: a function that says what to ask (the request, a
//! plain value) and a function that takes the kernel's answer (a
//! [`sys::SysReturn`]) and says what follows from it. The caller performs the
//! system call between the two, under whatever lock it shares the state with.
//!
//! - [`kvm`]: the handle on the virtualization device.
//! - [`caps`]: capabilities, portable and as the kernel names them.
//! - [`vm`]: the virtual machine context, with [`vm_state`] as its
//!   mathematical model and the laws that hold of it.
//! - [`slots`]: the pool of slot identifiers, and what keeps them dense.
//! - [`guest_memory`], [`mmap`], [`region_map`]: guest memory and host
//!   mappings as descriptions, and the registrations that are live.
//! - [`irq`]: interrupt lines, event bindings and the routing table.
//! - [`vcpu`]: virtual CPU handles.
//! - [`abi`]: the requests as the kernel takes them.
//! - [`sys`]: descriptors, system call outcomes and errors.
//! - [`fdt`]: the device tree that a guest kernel is booted with.
//! - [`syslog`], [`text`]: the logging facility and the text operations under
//!   it.

pub mod abi;
pub mod caps;
pub mod fdt;
pub mod guest_memory;
pub mod irq;
pub mod kvm;
pub mod mmap;
pub mod region_map;
pub mod slots;
pub mod sys;
pub mod syslog;
pub mod text;
pub mod vcpu;
pub mod vm;
pub mod vm_state;
