//! Handle translator: the small closed set of well-known registry roots, and
//! the pure, total, bidirectional mapping between them and the backend's raw
//! handle representation.

use vstd::prelude::*;

verus! {

/// The raw handle values of the well-known roots, as the host registry
/// defines them.
pub const HKEY_CLASSES_ROOT: isize = -2147483648;

pub const HKEY_CURRENT_USER: isize = -2147483647;

pub const HKEY_LOCAL_MACHINE: isize = -2147483646;

pub const HKEY_USERS: isize = -2147483645;

pub const HKEY_PERFORMANCE_DATA: isize = -2147483644;

pub const HKEY_CURRENT_CONFIG: isize = -2147483643;

pub const HKEY_DYN_DATA: isize = -2147483642;

pub const HKEY_PERFORMANCE_TEXT: isize = -2147483568;

pub const HKEY_PERFORMANCE_NLSTEXT: isize = -2147483552;

/// A reference to an open key: one of the well-known roots, or an opaque
/// handle the backend returned from an earlier open. The backend owns the
/// underlying resource; closing a well-known root is a no-op.
#[derive(Clone, Copy, Debug, PartialEq, Eq, Structural)]
pub enum KeyHandle {
    ClassesRoot,
    CurrentConfig,
    CurrentUser,
    DynData,
    LocalMachine,
    PerformanceData,
    PerformanceNlstext,
    PerformanceText,
    Users,
    Opaque(isize),
}

/// Whether a raw handle value is one of the well-known root constants.
pub open spec fn is_well_known_root(h: isize) -> bool {
    h == HKEY_CLASSES_ROOT || h == HKEY_CURRENT_CONFIG || h == HKEY_CURRENT_USER || h
        == HKEY_DYN_DATA || h == HKEY_LOCAL_MACHINE || h == HKEY_PERFORMANCE_DATA || h
        == HKEY_PERFORMANCE_NLSTEXT || h == HKEY_PERFORMANCE_TEXT || h == HKEY_USERS
}

/// The raw backend handle a key handle stands for: a fixed lookup for the
/// well-known roots; an opaque handle passes through unchanged.
pub open spec fn spec_to_hkey(key: KeyHandle) -> isize {
    match key {
        KeyHandle::ClassesRoot => HKEY_CLASSES_ROOT,
        KeyHandle::CurrentConfig => HKEY_CURRENT_CONFIG,
        KeyHandle::CurrentUser => HKEY_CURRENT_USER,
        KeyHandle::DynData => HKEY_DYN_DATA,
        KeyHandle::LocalMachine => HKEY_LOCAL_MACHINE,
        KeyHandle::PerformanceData => HKEY_PERFORMANCE_DATA,
        KeyHandle::PerformanceNlstext => HKEY_PERFORMANCE_NLSTEXT,
        KeyHandle::PerformanceText => HKEY_PERFORMANCE_TEXT,
        KeyHandle::Users => HKEY_USERS,
        KeyHandle::Opaque(h) => h,
    }
}

/// The key handle a raw backend handle stands for: the inverse lookup; a raw
/// handle that matches no well-known root is wrapped as `Opaque` rather than
/// rejected.
pub open spec fn spec_from_hkey(h: isize) -> KeyHandle {
    if h == HKEY_CLASSES_ROOT {
        KeyHandle::ClassesRoot
    } else if h == HKEY_CURRENT_CONFIG {
        KeyHandle::CurrentConfig
    } else if h == HKEY_CURRENT_USER {
        KeyHandle::CurrentUser
    } else if h == HKEY_DYN_DATA {
        KeyHandle::DynData
    } else if h == HKEY_LOCAL_MACHINE {
        KeyHandle::LocalMachine
    } else if h == HKEY_PERFORMANCE_DATA {
        KeyHandle::PerformanceData
    } else if h == HKEY_PERFORMANCE_NLSTEXT {
        KeyHandle::PerformanceNlstext
    } else if h == HKEY_PERFORMANCE_TEXT {
        KeyHandle::PerformanceText
    } else if h == HKEY_USERS {
        KeyHandle::Users
    } else {
        KeyHandle::Opaque(h)
    }
}

/// Maps a key handle to the raw handle the backend expects.
pub fn to_hkey(key: KeyHandle) -> (r: isize)
    ensures
        r == spec_to_hkey(key),
{
    match key {
        KeyHandle::ClassesRoot => HKEY_CLASSES_ROOT,
        KeyHandle::CurrentConfig => HKEY_CURRENT_CONFIG,
        KeyHandle::CurrentUser => HKEY_CURRENT_USER,
        KeyHandle::DynData => HKEY_DYN_DATA,
        KeyHandle::LocalMachine => HKEY_LOCAL_MACHINE,
        KeyHandle::PerformanceData => HKEY_PERFORMANCE_DATA,
        KeyHandle::PerformanceNlstext => HKEY_PERFORMANCE_NLSTEXT,
        KeyHandle::PerformanceText => HKEY_PERFORMANCE_TEXT,
        KeyHandle::Users => HKEY_USERS,
        KeyHandle::Opaque(h) => h,
    }
}

/// Wraps a raw backend handle as a key handle.
pub fn from_hkey(h: isize) -> (r: KeyHandle)
    ensures
        r == spec_from_hkey(h),
{
    if h == HKEY_CLASSES_ROOT {
        KeyHandle::ClassesRoot
    } else if h == HKEY_CURRENT_CONFIG {
        KeyHandle::CurrentConfig
    } else if h == HKEY_CURRENT_USER {
        KeyHandle::CurrentUser
    } else if h == HKEY_DYN_DATA {
        KeyHandle::DynData
    } else if h == HKEY_LOCAL_MACHINE {
        KeyHandle::LocalMachine
    } else if h == HKEY_PERFORMANCE_DATA {
        KeyHandle::PerformanceData
    } else if h == HKEY_PERFORMANCE_TEXT {
        KeyHandle::PerformanceText
    } else if h == HKEY_PERFORMANCE_NLSTEXT {
        KeyHandle::PerformanceNlstext
    } else if h == HKEY_USERS {
        KeyHandle::Users
    } else {
        KeyHandle::Opaque(h)
    }
}

/// Translating a raw handle to a key handle and back always restores the raw
/// handle: the translation loses nothing in that direction.
pub proof fn lemma_to_from_hkey(h: isize)
    ensures
        spec_to_hkey(spec_from_hkey(h)) == h,
{
}

/// Translating a key handle to a raw handle and back restores it, except for
/// an opaque handle that happens to carry a well-known root's value, which
/// comes back as that root.
pub proof fn lemma_from_to_hkey(key: KeyHandle)
    ensures
        match key {
            KeyHandle::Opaque(h) => !is_well_known_root(h) ==> spec_from_hkey(spec_to_hkey(key))
                == key,
            _ => spec_from_hkey(spec_to_hkey(key)) == key,
        },
{
}

} // verus!
