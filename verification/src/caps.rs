//! Capabilities: the portable identifiers that callers ask about, the names
//! under which the kernel interface knows them, and the way from the former
//! to the latter.

use vstd::prelude::*;
use crate::sys::Error;

verus! {

/// Extension number of user-space memory regions.
pub const KVM_CAP_USER_MEMORY: u32 = 3;

/// Extension number of the TSC deadline timer.
pub const KVM_CAP_TSC_DEADLINE_TIMER: u32 = 72;

/// Extension number of the paravirtual clock's suspend control.
pub const KVM_CAP_KVMCLOCK_CTRL: u32 = 76;

/// Extension number of user-space handling of S390 SIGP orders.
pub const KVM_CAP_S390_USER_SIGP: u32 = 106;

/// Extension number of the ARM performance monitor, version 3.
pub const KVM_CAP_ARM_PMU_V3: u32 = 126;

/// Extension number of the immediate-exit flag.
pub const KVM_CAP_IMMEDIATE_EXIT: u32 = 136;

/// A capability of the hypervisor, named independently of any platform.
#[derive(Clone, Copy, Debug, PartialEq, Eq, Structural)]
pub enum HypervisorCap {
    ArmPmuV3,
    ImmediateExit,
    S390UserSigp,
    TscDeadlineTimer,
    UserMemory,
}

/// A capability of a virtual machine, named independently of any platform.
#[derive(Clone, Copy, Debug, PartialEq, Eq, Structural)]
pub enum VmCap {
    /// Pages written by the guest can be tracked.
    DirtyLog,
    /// A paravirtual clock can be read and set.
    PvClock,
    /// The paravirtual clock can be told that the guest was suspended.
    PvClockSuspend,
}

/// A capability as the kernel interface names it.
#[derive(Clone, Copy, Debug, PartialEq, Eq, Structural)]
pub enum KvmCap {
    ArmPmuV3,
    ImmediateExit,
    S390UserSigp,
    TscDeadlineTimer,
    UserMemory,
}

impl KvmCap {
    /// The extension number under which the kernel knows this capability.
    pub open spec fn spec_number(self) -> u32 {
        match self {
            KvmCap::ArmPmuV3 => KVM_CAP_ARM_PMU_V3,
            KvmCap::ImmediateExit => KVM_CAP_IMMEDIATE_EXIT,
            KvmCap::S390UserSigp => KVM_CAP_S390_USER_SIGP,
            KvmCap::TscDeadlineTimer => KVM_CAP_TSC_DEADLINE_TIMER,
            KvmCap::UserMemory => KVM_CAP_USER_MEMORY,
        }
    }

    /// The extension number under which the kernel knows this capability.
    #[verifier::when_used_as_spec(spec_number)]
    pub fn number(self) -> (n: u32)
        ensures
            n == self.spec_number(),
    {
        match self {
            KvmCap::ArmPmuV3 => KVM_CAP_ARM_PMU_V3,
            KvmCap::ImmediateExit => KVM_CAP_IMMEDIATE_EXIT,
            KvmCap::S390UserSigp => KVM_CAP_S390_USER_SIGP,
            KvmCap::TscDeadlineTimer => KVM_CAP_TSC_DEADLINE_TIMER,
            KvmCap::UserMemory => KVM_CAP_USER_MEMORY,
        }
    }

    /// The kernel's name for a portable capability. The match has no
    /// catch-all arm, so a capability added to [`HypervisorCap`] without a
    /// line here does not compile.
    pub open spec fn spec_try_from(cap: HypervisorCap) -> Result<KvmCap, Error> {
        match cap {
            HypervisorCap::ArmPmuV3 => Ok(KvmCap::ArmPmuV3),
            HypervisorCap::ImmediateExit => Ok(KvmCap::ImmediateExit),
            HypervisorCap::S390UserSigp => Ok(KvmCap::S390UserSigp),
            HypervisorCap::TscDeadlineTimer => Ok(KvmCap::TscDeadlineTimer),
            HypervisorCap::UserMemory => Ok(KvmCap::UserMemory),
        }
    }

    /// The kernel's name for a portable capability, or an error where the
    /// platform has no equivalent.
    pub fn try_from(cap: &HypervisorCap) -> (r: Result<KvmCap, Error>)
        ensures
            r == Self::spec_try_from(*cap),
    {
        match cap {
            HypervisorCap::ArmPmuV3 => Ok(KvmCap::ArmPmuV3),
            HypervisorCap::ImmediateExit => Ok(KvmCap::ImmediateExit),
            HypervisorCap::S390UserSigp => Ok(KvmCap::S390UserSigp),
            HypervisorCap::TscDeadlineTimer => Ok(KvmCap::TscDeadlineTimer),
            HypervisorCap::UserMemory => Ok(KvmCap::UserMemory),
        }
    }
}

/// How a question about a capability is settled: either the answer is known
/// without the kernel, or the kernel has to be asked about one extension.
#[derive(Clone, Copy, Debug, PartialEq, Eq, Structural)]
pub enum CapQuery {
    /// The answer, known without asking.
    Known(bool),
    /// The extension number to hand to the kernel's extension query.
    Extension(u32),
}

impl CapQuery {
    /// The query for a capability, given the kernel's name for it as
    /// [`KvmCap::try_from`] found it: a capability without a platform
    /// equivalent is absent, never an error.
    pub open spec fn spec_of_kvm_cap(kvm_cap: Result<KvmCap, Error>) -> CapQuery {
        match kvm_cap {
            Ok(kvm_cap) => CapQuery::Extension(kvm_cap.spec_number()),
            Err(_) => CapQuery::Known(false),
        }
    }

    /// The query for a capability, given the kernel's name for it as
    /// [`KvmCap::try_from`] found it.
    pub fn of_kvm_cap(kvm_cap: Result<KvmCap, Error>) -> (q: CapQuery)
        ensures
            q == Self::spec_of_kvm_cap(kvm_cap),
    {
        match kvm_cap {
            Ok(kvm_cap) => CapQuery::Extension(kvm_cap.number()),
            Err(_) => CapQuery::Known(false),
        }
    }

    /// The extension that the kernel is to be asked about, if any.
    pub fn extension(&self) -> (e: Option<u32>)
        ensures
            e == (match *self {
                CapQuery::Known(_) => None::<u32>,
                CapQuery::Extension(n) => Some(n),
            }),
    {
        match self {
            CapQuery::Known(_) => None,
            CapQuery::Extension(n) => Some(*n),
        }
    }

    /// The answer, given what the kernel's extension query returned for
    /// [`CapQuery::extension`]: an extension is present exactly when the
    /// kernel answers 1. Where the kernel was not asked, `ret` is ignored.
    pub open spec fn spec_resolve(self, ret: i32) -> bool {
        match self {
            CapQuery::Known(answer) => answer,
            CapQuery::Extension(_) => ret == 1,
        }
    }

    /// The answer, given what the kernel's extension query returned.
    #[verifier::when_used_as_spec(spec_resolve)]
    pub fn resolve(self, ret: i32) -> (present: bool)
        ensures
            present == self.spec_resolve(ret),
    {
        match self {
            CapQuery::Known(answer) => answer,
            CapQuery::Extension(_) => ret == 1,
        }
    }
}

} // verus!
