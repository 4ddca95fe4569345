//! The collaborator boundary: the handle-based primitive family a concrete
//! registry backend must supply. A binding against a live host registry and
//! a binding against a registry image loaded from a file both stand behind
//! this one interface, so callers of the reader are backend-agnostic.
//!
//! Every primitive reports a plain status code; zero is success, and the
//! reader maps any other code through the error taxonomy. Each backend
//! describes its own behaviour with the spec functions below: what it
//! answers for a given handle, name or index, and buffer capacity. The
//! answer may depend on the capacity of the buffer handed in — that is the
//! "buffer too small" protocol — but on nothing hidden, so everything the
//! reader does with the answers is verified against that description.

use vstd::prelude::*;

verus! {

/// Which child family an indexed lookup walks: subkey names or value names.
#[derive(Clone, Copy, Debug, PartialEq, Eq, Structural)]
pub enum NameKind {
    Subkey,
    Value,
}

/// What a backend answers for "the name of the child at this index": the
/// name's code units, or a non-zero status code (259 meaning "no more
/// items", 234 meaning the buffer was too small for the name).
pub enum NameReply {
    Name(Seq<u16>),
    Fault(u32),
}

/// What a backend answers for "the data of this value": the value's type tag
/// and bytes; or "the buffer is too small, this many bytes are needed"; or a
/// non-zero status code other than the buffer-too-small one.
pub enum DataReply {
    Data(u32, Seq<u8>),
    More(nat),
    Fault(u32),
}

/// Summary metadata of a key. A backend that cannot report a field fills it
/// with zero rather than failing; the timestamp counts 100-nanosecond ticks
/// since the host registry's fixed epoch.
#[derive(Clone, Copy, Debug, PartialEq, Eq, Structural)]
pub struct KeyInfo {
    pub subkeys: u32,
    pub max_subkey_name_length: u32,
    pub values: u32,
    pub max_value_name_length: u32,
    pub max_value_length: u32,
    pub last_write_time: u64,
}

/// A registry backend: the four read primitives and a close, each answering
/// exactly as the backend's own spec functions describe.
pub trait RegistryBackend: Sized {
    /// What `open_raw` answers for this parent handle and zero-terminated
    /// relative path: a raw handle of the opened key, or a status code. A
    /// binding against an outside registry leaves this unspecified.
    open spec fn open_reply(&self, h: isize, path: Seq<u16>) -> Result<isize, u32> {
        arbitrary()
    }

    /// What `key_info_raw` answers for this handle. Reporting metadata never
    /// fails; unsupported fields come back zeroed.
    open spec fn info_reply(&self, h: isize) -> KeyInfo {
        arbitrary()
    }

    /// What `name_at_raw` answers for this handle, child family, index, and
    /// name-buffer capacity.
    open spec fn name_reply(&self, h: isize, which: NameKind, index: int, cap: nat) -> NameReply {
        arbitrary()
    }

    /// What `query_value_raw` answers for this handle, zero-terminated value
    /// name, and data-buffer capacity.
    open spec fn value_reply(&self, h: isize, name: Seq<u16>, cap: nat) -> DataReply {
        arbitrary()
    }

    /// Opens the key at a relative path under an open parent key.
    fn open_raw(&self, h: isize, path: &[u16]) -> (r: Result<isize, u32>)
        ensures
            r == self.open_reply(h, path@),
    ;

    /// Queries a key's summary metadata.
    fn key_info_raw(&self, h: isize) -> (r: KeyInfo)
        ensures
            r == self.info_reply(h),
    ;

    /// Writes the name of the child at `index` into the front of `buf` and
    /// returns a status code and the name's length in code units. A name is
    /// delivered whole or not at all, and never grows the buffer.
    fn name_at_raw(&self, h: isize, which: NameKind, index: u32, buf: &mut Vec<u16>) -> (r: (
        u32,
        u32,
    ))
        ensures
            final(buf)@.len() == old(buf)@.len(),
            match self.name_reply(h, which, index as int, old(buf)@.len() as nat) {
                NameReply::Name(n) => r.0 == 0 && n.len() <= old(buf)@.len() && r.1 as nat
                    == n.len() && final(buf)@.take(n.len() as int) == n,
                NameReply::Fault(c) => r.0 == c && c != 0,
            },
    ;

    /// Writes a value's data into the front of `buf` and returns a status
    /// code, the value's type tag, and the data's length in bytes; on the
    /// buffer-too-small status the length is instead the size the backend
    /// asks for. Data is delivered whole or not at all, and the buffer never
    /// grows.
    fn query_value_raw(&self, h: isize, name: &[u16], buf: &mut Vec<u8>) -> (r: (u32, u32, u32))
        ensures
            final(buf)@.len() == old(buf)@.len(),
            match self.value_reply(h, name@, old(buf)@.len() as nat) {
                DataReply::Data(tag, bytes) => r.0 == 0 && r.1 == tag && bytes.len() <= old(
                    buf,
                )@.len() && r.2 as nat == bytes.len() && final(buf)@.take(bytes.len() as int)
                    == bytes,
                DataReply::More(n) => r.0 == 234 && r.2 as nat == n,
                DataReply::Fault(c) => r.0 == c && c != 0 && c != 234,
            },
    ;

    /// Releases an opened key's backend resource. Failures at close time
    /// have no recovery and are discarded, so this reports nothing.
    fn close_raw(&self, h: isize);
}

} // verus!
