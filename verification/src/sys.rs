//! Values exchanged with the operating system: descriptors, the outcome of a
//! system call, and the error taxonomy shared by every operation.

use vstd::prelude::*;

verus! {

/// A descriptor number as the operating system hands it out.
pub type RawDescriptor = i32;

/// A descriptor as a 32-bit field of a kernel request holds it: the same
/// bits, read as an unsigned number.
pub open spec fn descriptor_bits(fd: RawDescriptor) -> u32 {
    if fd >= 0 {
        fd as u32
    } else {
        (fd + 0x1_0000_0000) as u32
    }
}

/// The descriptor that a 32-bit field of a kernel request holds: the same
/// bits, read as a signed number.
pub open spec fn descriptor_of_bits(bits: u32) -> RawDescriptor {
    if bits <= i32::MAX {
        bits as i32
    } else {
        (bits - 0x1_0000_0000) as i32
    }
}

/// Reading a descriptor from the field it was written to gives it back.
pub proof fn lemma_descriptor_bits_round_trip(fd: RawDescriptor)
    ensures
        descriptor_of_bits(descriptor_bits(fd)) == fd,
{
}

/// The 32-bit field of a kernel request that holds `fd`.
#[verifier::when_used_as_spec(descriptor_bits)]
pub fn descriptor_field(fd: RawDescriptor) -> (bits: u32)
    ensures
        bits == descriptor_bits(fd),
{
    let bits = #[verifier::truncate]
    (fd as u32);
    assert(fd >= 0 ==> bits == fd) by (bit_vector)
        requires
            bits == fd as u32,
    ;
    assert(fd < 0 ==> bits == fd + 0x1_0000_0000) by (bit_vector)
        requires
            bits == fd as u32,
    ;
    bits
}

/// The descriptor that a 32-bit field of a kernel request holds.
#[verifier::when_used_as_spec(descriptor_of_bits)]
pub fn field_descriptor(bits: u32) -> (fd: RawDescriptor)
    ensures
        fd == descriptor_of_bits(bits),
{
    let fd = #[verifier::truncate]
    (bits as i32);
    assert(bits <= 0x7fff_ffff ==> fd == bits) by (bit_vector)
        requires
            fd == bits as i32,
    ;
    assert(bits > 0x7fff_ffff ==> fd == bits - 0x1_0000_0000) by (bit_vector)
        requires
            fd == bits as i32,
    ;
    fd
}

/// Why an operation failed.
///
/// The variants are errno-shaped: each of the first seven stands for one
/// well-known error number, and `Sys` carries a number that the operating
/// system reported, passed on verbatim.
#[derive(Clone, Copy, Debug, PartialEq, Eq, Structural)]
pub enum Error {
    /// Address arithmetic left the 64-bit range (`EOVERFLOW`).
    Overflow,
    /// No room: the range is taken, or no identifier is left (`ENOSPC`).
    NoSpace,
    /// The operation named something that is not there (`ENOENT`).
    NotFound,
    /// A byte range lies outside the mapping it refers to (`EFAULT`).
    BadAddress,
    /// An argument is malformed, such as a misaligned range (`EINVAL`).
    InvalidArgument,
    /// Generic failure of a lower layer (`EIO`).
    Io,
    /// No such device on this platform (`ENXIO`).
    NoDevice,
    /// The error number that a system call left behind.
    Sys(i32),
}

/// What a raw system call left behind: its return value and the error number
/// that was current when it returned.
#[derive(Clone, Copy, Debug, PartialEq, Eq, Structural)]
pub struct SysReturn {
    pub ret: i32,
    pub errno: i32,
}

impl SysReturn {
    /// A return that reports success with the given value.
    pub fn success(ret: i32) -> (r: SysReturn)
        ensures
            r == (SysReturn { ret, errno: 0 }),
    {
        SysReturn { ret, errno: 0 }
    }

    /// A return of -1 with the given error number.
    pub fn failure(errno: i32) -> (r: SysReturn)
        ensures
            r == (SysReturn { ret: -1i32, errno }),
    {
        SysReturn { ret: -1, errno }
    }

    /// The error that the call reported.
    pub open spec fn spec_error(self) -> Error {
        Error::Sys(self.errno)
    }

    /// The error that the call reported.
    #[verifier::when_used_as_spec(spec_error)]
    pub fn error(self) -> (e: Error)
        ensures
            e == self.spec_error(),
    {
        Error::Sys(self.errno)
    }

    /// Outcome of a call that answers 0 on success: anything else is the
    /// error that the call reported.
    pub open spec fn spec_status(self) -> Result<(), Error> {
        if self.ret == 0 {
            Ok(())
        } else {
            Err(self.spec_error())
        }
    }

    /// Outcome of a call that answers 0 on success.
    #[verifier::when_used_as_spec(spec_status)]
    pub fn status(self) -> (r: Result<(), Error>)
        ensures
            r == self.spec_status(),
    {
        if self.ret == 0 {
            Ok(())
        } else {
            Err(self.error())
        }
    }

    /// Outcome of a call that answers a new descriptor: a negative value is
    /// the error that the call reported.
    pub open spec fn spec_descriptor(self) -> Result<RawDescriptor, Error> {
        if self.ret < 0 {
            Err(self.spec_error())
        } else {
            Ok(self.ret)
        }
    }

    /// Outcome of a call that answers a new descriptor.
    #[verifier::when_used_as_spec(spec_descriptor)]
    pub fn descriptor(self) -> (r: Result<RawDescriptor, Error>)
        ensures
            r == self.spec_descriptor(),
    {
        if self.ret < 0 {
            Err(self.error())
        } else {
            Ok(self.ret)
        }
    }
}

} // verus!
