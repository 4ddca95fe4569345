//! A read-only, typed view of a hierarchical registry: open keys by hive and
//! path, enumerate subkeys and value names, read typed values, and query key
//! metadata, against any backend that exposes the usual buffer-filling
//! primitives.

use vstd::prelude::*;

pub mod backend;
pub mod handle;
pub mod reader;
pub mod scripted;
pub mod status;
pub mod value;
pub mod wide;

pub use backend::KeyInfo;
pub use backend::NameKind;
pub use backend::RegistryBackend;
pub use handle::KeyHandle;
pub use reader::RegistryKeyReader;
pub use status::RegError;
pub use value::TypedValue;
pub use wide::from_pwstr;
pub use wide::to_pwstr;

verus! {

/// Allocates a zero-filled byte buffer of the given length, ready to be
/// handed to a backend call that fills it.
pub fn vec_with_capacity(capacity: usize) -> (r: Vec<u8>)
    ensures
        r@.len() == capacity,
        forall|i: int| 0 <= i < r@.len() ==> r@[i] == 0u8,
{
    let mut v: Vec<u8> = Vec::new();
    let mut i: usize = 0;
    while i < capacity
        invariant
            i <= capacity,
            v@.len() == i,
            forall|j: int| 0 <= j < v@.len() ==> v@[j] == 0u8,
        decreases capacity - i,
    {
        v.push(0u8);
        i = i + 1;
    }
    v
}

/// Combines the two 32-bit halves of a backend timestamp into its count of
/// 100-nanosecond ticks.
pub fn filetime_ticks(low: u32, high: u32) -> (r: u64)
    ensures
        r == high as u64 * 0x100000000 + low as u64,
{
    (high as u64) * 0x100000000u64 + (low as u64)
}

} // verus!
