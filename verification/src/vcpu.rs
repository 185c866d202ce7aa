//! Virtual CPU handles: constructed from a virtual machine, then bound to
//! the thread that runs them.

use std::marker::PhantomData;
use std::rc::Rc;
use vstd::prelude::*;
use crate::sys::Error;

verus! {

/// Why a virtual CPU stopped running.
#[derive(Clone, Copy, Debug, PartialEq, Eq, Structural)]
pub enum VcpuExit {
    Unknown,
}

/// A virtual CPU that has been constructed and is not yet bound to a thread.
#[derive(Debug, PartialEq, Eq)]
pub struct KvmVcpu {}

impl KvmVcpu {
    /// Binds the virtual CPU to the calling thread. The handle is used up and
    /// its runnable form, which cannot leave the thread, takes its place.
    pub fn to_runnable(self) -> (r: Result<RunnableKvmVcpu, Error>)
        ensures
            r is Ok,
            r->Ok_0.spec_vcpu() == self,
    {
        Ok(RunnableKvmVcpu { vcpu: self, phantom: PhantomData })
    }

    /// Asks that the next run stop as soon as an interrupt can be injected.
    pub fn request_interrupt_window(&self) -> (r: Result<(), Error>)
        ensures
            r == Ok::<(), Error>(()),
    {
        Ok(())
    }
}

/// A virtual CPU that is bound to a thread and can be run.
///
/// The kernel keeps the state of a virtual CPU with the thread that runs it.
/// The marker field makes the type neither `Send` nor `Sync`, so a value
/// cannot be moved to, or used from, any thread but the one that made it.
#[derive(Debug)]
pub struct RunnableKvmVcpu {
    vcpu: KvmVcpu,
    phantom: PhantomData<Rc<()>>,
}

impl RunnableKvmVcpu {
    /// The virtual CPU that was made runnable.
    pub closed spec fn spec_vcpu(&self) -> KvmVcpu {
        self.vcpu
    }

    /// Runs the virtual CPU until it exits.
    pub fn run(&self) -> (r: Result<VcpuExit, Error>)
        ensures
            r == Ok::<VcpuExit, Error>(VcpuExit::Unknown),
    {
        Ok(VcpuExit::Unknown)
    }

    /// The virtual CPU that was made runnable.
    pub fn vcpu(&self) -> (vcpu: &KvmVcpu)
        ensures
            *vcpu == self.spec_vcpu(),
    {
        &self.vcpu
    }

    /// The virtual CPU that was made runnable, for changing it.
    pub fn vcpu_mut(&mut self) -> (vcpu: &mut KvmVcpu)
        ensures
            *vcpu == old(self).spec_vcpu(),
            final(self).spec_vcpu() == *final(vcpu),
    {
        &mut self.vcpu
    }
}

} // verus!
