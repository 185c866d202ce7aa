//! The handle on the kernel's virtualization device.

use vstd::prelude::*;
use crate::caps::{CapQuery, HypervisorCap, KvmCap};
use crate::sys::{Error, RawDescriptor, SysReturn};

verus! {

/// How a device is to be opened.
#[derive(Clone, Copy, Debug, PartialEq, Eq)]
pub struct OpenRequest {
    /// The path of the device.
    pub path: &'static str,
    /// Whether the device is opened for reading and writing.
    pub read_write: bool,
    /// Whether the descriptor is closed when the process executes another
    /// program.
    pub close_on_exec: bool,
}

/// The open virtualization device.
#[derive(Debug, PartialEq, Eq)]
pub struct Kvm {
    kvm: RawDescriptor,
}

impl Kvm {
    /// The descriptor of the device.
    pub closed spec fn spec_as_raw_descriptor(&self) -> RawDescriptor {
        self.kvm
    }

    /// How the virtualization device is to be opened: `/dev/kvm`, for
    /// reading and writing, closed on exec.
    pub fn open_request() -> (request: OpenRequest)
        ensures
            request.path@ == "/dev/kvm"@,
            request.read_write,
            request.close_on_exec,
    {
        OpenRequest { path: "/dev/kvm", read_write: true, close_on_exec: true }
    }

    /// The handle on the device, given what opening it as
    /// [`Kvm::open_request`] says returned: a negative return is the error
    /// that the operating system reported, anything else is the descriptor.
    pub fn new(opened: SysReturn) -> (r: Result<Kvm, Error>)
        ensures
            opened.ret < 0 ==> r == Err::<Kvm, _>(opened.spec_error()),
            opened.ret >= 0 ==> r is Ok && r->Ok_0.spec_as_raw_descriptor() == opened.ret,
    {
        match opened.descriptor() {
            Ok(kvm) => Ok(Kvm { kvm }),
            Err(e) => Err(e),
        }
    }

    /// The descriptor of the device.
    #[verifier::when_used_as_spec(spec_as_raw_descriptor)]
    pub fn as_raw_descriptor(&self) -> (fd: RawDescriptor)
        ensures
            fd == self.spec_as_raw_descriptor(),
    {
        self.kvm
    }

    /// How to find out whether the hypervisor has `cap`: the kernel is to be
    /// asked about the extension under which it knows the capability. A
    /// capability that it has no name for is absent.
    pub fn check_capability(&self, cap: &HypervisorCap) -> (query: CapQuery)
        ensures
            query == CapQuery::spec_of_kvm_cap(KvmCap::spec_try_from(*cap)),
    {
        CapQuery::of_kvm_cap(KvmCap::try_from(cap))
    }
}

} // verus!
