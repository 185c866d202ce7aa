//! Host memory mappings as descriptions: where a mapping lies in the host's
//! address space and how long it is. Mapping, unmapping and flushing are the
//! caller's work; what is decided here is which byte range a flush covers and
//! how its failures are reported.

use vstd::prelude::*;
use crate::sys::{Error, SysReturn};

verus! {

/// Why an operation on a mapping failed.
#[derive(Clone, Copy, Debug, PartialEq, Eq, Structural)]
pub enum MmapError {
    /// The byte range is not inside the mapping.
    InvalidAddress,
    /// The offset into the backing file is not usable.
    InvalidOffset,
    /// The two offsets do not delimit a range.
    InvalidRange(usize, usize),
    /// An address or length is not a multiple of the page size.
    NotPageAligned,
    /// A system call failed with the given error.
    SystemCallFailed(Error),
}

impl MmapError {
    /// The error under which a failure of a mapping is reported by the
    /// virtual machine's operations.
    pub open spec fn spec_to_error(self) -> Error {
        match self {
            MmapError::InvalidAddress => Error::BadAddress,
            MmapError::NotPageAligned => Error::InvalidArgument,
            MmapError::SystemCallFailed(e) => e,
            _ => Error::Io,
        }
    }

    /// The error under which a failure of a mapping is reported by the
    /// virtual machine's operations: a bad address and a misalignment keep
    /// their meaning, a failed system call keeps its error, and anything else
    /// is a generic I/O failure.
    #[verifier::when_used_as_spec(spec_to_error)]
    pub fn to_error(self) -> (e: Error)
        ensures
            e == self.spec_to_error(),
    {
        match self {
            MmapError::InvalidAddress => Error::BadAddress,
            MmapError::NotPageAligned => Error::InvalidArgument,
            MmapError::SystemCallFailed(e) => e,
            _ => Error::Io,
        }
    }
}

/// A range of bytes in the host's address space.
#[derive(Clone, Copy, Debug, PartialEq, Eq, Structural)]
pub struct HostRange {
    /// The address of the first byte.
    pub addr: u64,
    /// The number of bytes.
    pub len: u64,
}

/// A mapping of host memory that can back a region of guest memory.
#[derive(Clone, Copy, Debug, PartialEq, Eq, Structural)]
pub struct MappedRegion {
    /// Where the mapping starts in the host's address space.
    pub addr: u64,
    /// The length of the mapping in bytes.
    pub size: u64,
}

impl MappedRegion {
    /// Describes a mapping of `size` bytes at host address `addr`.
    pub fn new(addr: u64, size: u64) -> (mem: MappedRegion)
        ensures
            mem == (MappedRegion { addr, size }),
    {
        MappedRegion { addr, size }
    }

    /// Where the mapping starts in the host's address space.
    pub fn as_ptr(self) -> (addr: u64)
        ensures
            addr == self.addr,
    {
        self.addr
    }

    /// The length of the mapping in bytes.
    pub fn size(self) -> (size: u64)
        ensures
            size == self.size,
    {
        self.size
    }

    /// Whether `size` bytes from `offset` on lie inside the mapping, their end
    /// can be computed in a `usize`, and the range they occupy lies inside the
    /// host's 64-bit address space.
    pub open spec fn includes_range(self, offset: usize, size: usize) -> bool {
        &&& offset + size <= usize::MAX
        &&& offset + size <= self.size
        &&& self.addr + offset <= u64::MAX
    }

    /// The host range that a flush of `size` bytes from `offset` on covers.
    pub open spec fn spec_msync(self, offset: usize, size: usize) -> Result<HostRange, MmapError> {
        if self.includes_range(offset, size) {
            Ok(HostRange { addr: (self.addr + offset) as u64, len: size as u64 })
        } else {
            Err(MmapError::InvalidAddress)
        }
    }

    /// The host range to flush to the backing store for `size` bytes from
    /// `offset` on, or `InvalidAddress` where those bytes are not all inside
    /// the mapping.
    #[verifier::when_used_as_spec(spec_msync)]
    pub fn msync(self, offset: usize, size: usize) -> (r: Result<HostRange, MmapError>)
        ensures
            r == self.spec_msync(offset, size),
    {
        let end_offset = match offset.checked_add(size) {
            Some(end_offset) => end_offset,
            None => {
                return Err(MmapError::InvalidAddress);
            },
        };
        if end_offset as u64 > self.size {
            return Err(MmapError::InvalidAddress);
        }
        match self.addr.checked_add(offset as u64) {
            Some(addr) => Ok(HostRange { addr, len: size as u64 }),
            None => Err(MmapError::InvalidAddress),
        }
    }
}

/// Outcome of the system call that flushes a range: it answers -1 on
/// failure.
pub open spec fn spec_msync_result(ret: SysReturn) -> Result<(), MmapError> {
    if ret.ret != -1 {
        Ok(())
    } else {
        Err(MmapError::SystemCallFailed(ret.spec_error()))
    }
}

/// Outcome of the system call that flushes a range.
#[verifier::when_used_as_spec(spec_msync_result)]
pub fn msync_result(ret: SysReturn) -> (r: Result<(), MmapError>)
    ensures
        r == spec_msync_result(ret),
{
    if ret.ret != -1 {
        Ok(())
    } else {
        Err(MmapError::SystemCallFailed(ret.error()))
    }
}

} // verus!
