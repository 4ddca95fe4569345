//! The closed error taxonomy, and the total mapping from backend status
//! codes into it.

use vstd::prelude::*;

verus! {

/// The well-known backend status codes that the reader reacts to.
pub const STATUS_FILE_NOT_FOUND: u32 = 2;

pub const STATUS_ACCESS_DENIED: u32 = 5;

pub const STATUS_INVALID_HANDLE: u32 = 6;

pub const STATUS_INVALID_DATA: u32 = 13;

pub const STATUS_NO_MORE_FILES: u32 = 18;

pub const STATUS_MORE_DATA: u32 = 234;

pub const STATUS_NO_MORE_ITEMS: u32 = 259;

/// Every failure of the reader is one of these; `Other` carries the original
/// backend status code for diagnostics.
#[derive(Clone, Copy, Debug, PartialEq, Eq, Structural)]
pub enum RegError {
    /// The requested key or value does not exist.
    NotFound,
    /// The backend denied access.
    PermissionDenied,
    /// The supplied handle is stale or malformed.
    InvalidHandle,
    /// The data's size or structure does not match its declared type.
    MalformedData,
    /// Enumeration or positional lookup ran past the available children.
    NoMoreData,
    /// The backend reported a value type the decoder does not implement.
    UnsupportedType,
    /// Any other backend status, kept verbatim.
    Other(u32),
}

/// Where each backend status code lands in the closed taxonomy. The mapping
/// is total: unrecognised codes land in `Other`.
pub open spec fn spec_map_status(code: u32) -> RegError {
    if code == STATUS_FILE_NOT_FOUND {
        RegError::NotFound
    } else if code == STATUS_ACCESS_DENIED {
        RegError::PermissionDenied
    } else if code == STATUS_INVALID_HANDLE {
        RegError::InvalidHandle
    } else if code == STATUS_INVALID_DATA {
        RegError::MalformedData
    } else if code == STATUS_NO_MORE_FILES {
        RegError::NoMoreData
    } else if code == STATUS_NO_MORE_ITEMS {
        RegError::NoMoreData
    } else {
        RegError::Other(code)
    }
}

/// Translates a backend status code into the closed error taxonomy.
pub fn map_status(code: u32) -> (r: RegError)
    ensures
        r == spec_map_status(code),
{
    if code == STATUS_FILE_NOT_FOUND {
        RegError::NotFound
    } else if code == STATUS_ACCESS_DENIED {
        RegError::PermissionDenied
    } else if code == STATUS_INVALID_HANDLE {
        RegError::InvalidHandle
    } else if code == STATUS_INVALID_DATA {
        RegError::MalformedData
    } else if code == STATUS_NO_MORE_FILES {
        RegError::NoMoreData
    } else if code == STATUS_NO_MORE_ITEMS {
        RegError::NoMoreData
    } else {
        RegError::Other(code)
    }
}

} // verus!
