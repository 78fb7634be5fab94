//! The unified error taxonomy of the library.
//!
//! Every fallible operation reports one of these kinds; a device-level
//! failure carries the originating OS error code so that callers can tell,
//! for example, a busy device from a full table.

use vstd::prelude::*;

verus! {

/// OS error code reported when an operation needs an open device handle and
/// the context has none.
pub const OS_EBADF: i32 = 9;

/// OS error code reported when a device probe is rejected as inconsistent.
pub const OS_EINVAL: i32 = 22;

/// The error kinds of the library.
#[derive(Clone, Copy, Debug, PartialEq, Eq, Structural)]
pub enum FdiskError {
    /// Device open, probe or sync failure; carries the OS error code.
    Device { code: i32 },
    /// A mutating operation was attempted on a read-only device assignment.
    ReadOnly,
    /// No label is active on the context, or no driver matches a lookup.
    NoLabel,
    /// A label name does not match any recognized driver.
    UnsupportedLabel,
    /// A partition number is outside the label's current range.
    NoSuchPartition,
    /// A table entry was not found.
    NotFound,
    /// A partition's placement overlaps another entry.
    Conflict,
    /// The label's maximum entry count would be exceeded.
    Capacity,
    /// A string field is not representable in the driver's text encoding.
    Encoding,
    /// A geometry override violates a defined consistency rule.
    InvalidArgument,
    /// A nested session could not be constructed.
    Allocation,
    /// An optional driver-provided value is absent.
    NoData,
}

impl FdiskError {
    /// A short, stable name for the error kind.
    pub fn kind_name(&self) -> (r: &'static str)
        ensures
            r@ == kind_name_spec(*self),
    {
        match self {
            FdiskError::Device { .. } => "device error",
            FdiskError::ReadOnly => "read-only context",
            FdiskError::NoLabel => "no label",
            FdiskError::UnsupportedLabel => "unsupported label",
            FdiskError::NoSuchPartition => "no such partition",
            FdiskError::NotFound => "not found",
            FdiskError::Conflict => "conflicting partitions",
            FdiskError::Capacity => "table is full",
            FdiskError::Encoding => "encoding error",
            FdiskError::InvalidArgument => "invalid argument",
            FdiskError::Allocation => "allocation failure",
            FdiskError::NoData => "no data",
        }
    }
}

/// The name that [`FdiskError::kind_name`] reports for each kind.
pub open spec fn kind_name_spec(e: FdiskError) -> Seq<char> {
    match e {
        FdiskError::Device { .. } => "device error"@,
        FdiskError::ReadOnly => "read-only context"@,
        FdiskError::NoLabel => "no label"@,
        FdiskError::UnsupportedLabel => "unsupported label"@,
        FdiskError::NoSuchPartition => "no such partition"@,
        FdiskError::NotFound => "not found"@,
        FdiskError::Conflict => "conflicting partitions"@,
        FdiskError::Capacity => "table is full"@,
        FdiskError::Encoding => "encoding error"@,
        FdiskError::InvalidArgument => "invalid argument"@,
        FdiskError::Allocation => "allocation failure"@,
        FdiskError::NoData => "no data"@,
    }
}

} // verus!
