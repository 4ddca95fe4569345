//! The reader: opens keys, reads typed values through the growable-buffer
//! query protocol, enumerates subkey and value names through indexed
//! pagination, and queries key metadata, all against any backend behind the
//! collaborator interface.

use vstd::prelude::*;

use crate::backend::DataReply;
use crate::backend::KeyInfo;
use crate::backend::NameKind;
use crate::backend::NameReply;
use crate::backend::RegistryBackend;
use crate::handle::from_hkey;
use crate::handle::spec_from_hkey;
use crate::handle::spec_to_hkey;
use crate::handle::to_hkey;
use crate::handle::KeyHandle;
use crate::status::map_status;
use crate::status::spec_map_status;
use crate::status::RegError;
use crate::status::STATUS_MORE_DATA;
use crate::status::STATUS_NO_MORE_ITEMS;
use crate::value::decode_value;
use crate::value::spec_decode_value;
use crate::value::TypedValue;
use crate::value::ValueView;
use crate::vec_with_capacity;
use crate::wide::chars_of_utf16;
use crate::wide::from_pwstr;
use crate::wide::to_pwstr;
use crate::wide::utf16_of;

verus! {

/// How often a value query grows its buffer and retries after the backend
/// reports it too small, before giving up. One retry suffices against a
/// well-behaved backend; the ceiling guarantees termination against any.
pub const MAX_QUERY_ATTEMPTS: u32 = 8;

/// How the two-phase value query unwinds: ask with the current buffer
/// capacity; data answers the query, a fault maps into the error taxonomy
/// and is never retried, and "buffer too small" retries at the requested
/// capacity until the attempt ceiling runs out, which surfaces the
/// buffer-too-small status itself.
pub open spec fn spec_query<B: RegistryBackend>(
    b: &B,
    h: isize,
    name: Seq<u16>,
    cap: nat,
    fuel: nat,
) -> Result<(u32, Seq<u8>), RegError>
    decreases fuel,
{
    match b.value_reply(h, name, cap) {
        DataReply::Data(tag, bytes) => Ok((tag, bytes)),
        DataReply::More(n) => if fuel == 0 {
            Err(RegError::Other(STATUS_MORE_DATA))
        } else {
            spec_query(b, h, name, n, (fuel - 1) as nat)
        },
        DataReply::Fault(c) => Err(spec_map_status(c)),
    }
}

/// The names full enumeration collects, walking indices from `i` up to
/// `count`: each reported name in index order; "no more items" ends the walk
/// early with what exists; any other fault aborts the walk with that error
/// and no partial list.
pub open spec fn spec_enum<B: RegistryBackend>(
    b: &B,
    h: isize,
    which: NameKind,
    i: int,
    count: int,
    cap: nat,
) -> Result<Seq<Seq<u16>>, RegError>
    decreases count - i,
{
    if i >= count {
        Ok(Seq::empty())
    } else {
        match b.name_reply(h, which, i, cap) {
            NameReply::Name(n) => match spec_enum(b, h, which, i + 1, count, cap) {
                Ok(rest) => Ok(seq![n] + rest),
                Err(e) => Err(e),
            },
            NameReply::Fault(c) => if c == STATUS_NO_MORE_ITEMS {
                Ok(Seq::empty())
            } else {
                Err(spec_map_status(c))
            },
        }
    }
}

/// The name a backend reply carries, when it carries one.
pub open spec fn reply_name(r: NameReply) -> Seq<u16> {
    match r {
        NameReply::Name(n) => n,
        NameReply::Fault(_) => Seq::empty(),
    }
}

/// The child count that bounds an indexed walk of the given family.
pub open spec fn count_for(info: KeyInfo, which: NameKind) -> u32 {
    match which {
        NameKind::Subkey => info.subkeys,
        NameKind::Value => info.values,
    }
}

/// The metadata hint for the longest name in the given family.
pub open spec fn max_name_for(info: KeyInfo, which: NameKind) -> u32 {
    match which {
        NameKind::Subkey => info.max_subkey_name_length,
        NameKind::Value => info.max_value_name_length,
    }
}

/// The capacity of a name buffer sized from a max-name-length hint: the hint
/// plus one for the terminator, as far as the machine allows.
pub open spec fn name_buf_cap(max_len: u32) -> nat {
    if (max_len as nat) < (usize::MAX as nat) {
        max_len as nat + 1
    } else {
        max_len as nat
    }
}

/// Allocates a zeroed name buffer sized from a max-name-length hint.
fn name_buffer(max_len: u32) -> (r: Vec<u16>)
    ensures
        r@.len() == name_buf_cap(max_len),
{
    let cap: usize = max_len as usize;
    let cap: usize = if cap < usize::MAX {
        cap + 1
    } else {
        cap
    };
    let mut v: Vec<u16> = Vec::new();
    let mut i: usize = 0;
    while i < cap
        invariant
            i <= cap,
            v@.len() == i,
        decreases cap - i,
    {
        v.push(0u16);
        i = i + 1;
    }
    v
}

/// A read-only registry reader over a concrete backend binding.
pub struct RegistryKeyReader<B: RegistryBackend> {
    pub backend: B,
}

impl<B: RegistryBackend> RegistryKeyReader<B> {
    /// Wraps a backend binding as a reader.
    pub fn new(backend: B) -> (r: Self)
        ensures
            r.backend == backend,
    {
        RegistryKeyReader { backend }
    }

    /// What reading a value comes to: translate the handle, run the
    /// growable-buffer query from a zero-length probe, and decode whatever
    /// data came back under its reported tag.
    pub open spec fn spec_read_value(&self, key: KeyHandle, name: Seq<char>) -> Result<
        ValueView,
        RegError,
    > {
        let h = spec_to_hkey(key);
        let wname = utf16_of(name).push(0u16);
        match spec_query(&self.backend, h, wname, 0, MAX_QUERY_ATTEMPTS as nat) {
            Ok((tag, bytes)) => spec_decode_value(bytes, tag),
            Err(e) => Err(e),
        }
    }

    /// Opens the key at a relative path under an open key. A raw handle the
    /// backend hands back that matches a well-known root comes back as that
    /// root; any other comes back opaque.
    pub fn open_key(&self, key: KeyHandle, name: &str) -> (r: Result<KeyHandle, RegError>)
        ensures
            ({
                match self.backend.open_reply(spec_to_hkey(key), utf16_of(name@).push(0u16)) {
                    Ok(h2) => r matches Ok(k2) && k2 == spec_from_hkey(h2),
                    Err(c) => r matches Err(e) && e == spec_map_status(c),
                }
            }),
    {
        let h = to_hkey(key);
        let wname = to_pwstr(name);
        match self.backend.open_raw(h, wname.as_slice()) {
            Ok(h2) => Ok(from_hkey(h2)),
            Err(c) => Err(map_status(c)),
        }
    }

    /// Reads the named value under an open key, decoded under the type tag
    /// the backend reports. The buffer starts empty as a pure size probe and
    /// grows to whatever the backend asks for, a bounded number of times.
    pub fn read_value(&self, key: KeyHandle, name: &str) -> (r: Result<TypedValue, RegError>)
        ensures
            ({
                match self.spec_read_value(key, name@) {
                    Ok(v) => r matches Ok(tv) && tv@ == v,
                    Err(e) => r matches Err(e2) && e2 == e,
                }
            }),
    {
        let h = to_hkey(key);
        let wname = to_pwstr(name);
        let mut buf: Vec<u8> = Vec::new();
        let mut attempts: u32 = 0;
        loop
            invariant
                attempts <= MAX_QUERY_ATTEMPTS,
                h == spec_to_hkey(key),
                wname@ == utf16_of(name@).push(0u16),
                spec_query(&self.backend, h, wname@, 0, MAX_QUERY_ATTEMPTS as nat) == spec_query(
                    &self.backend,
                    h,
                    wname@,
                    buf@.len() as nat,
                    (MAX_QUERY_ATTEMPTS - attempts) as nat,
                ),
            decreases MAX_QUERY_ATTEMPTS - attempts,
        {
            let (status, tag, size) = self.backend.query_value_raw(h, wname.as_slice(), &mut buf);
            if status == 0 {
                let data = vstd::slice::slice_subrange(buf.as_slice(), 0, size as usize);
                return decode_value(data, tag);
            } else if status == STATUS_MORE_DATA && attempts < MAX_QUERY_ATTEMPTS {
                attempts = attempts + 1;
                buf = vec_with_capacity(size as usize);
            } else {
                return Err(map_status(status));
            }
        }
    }

    /// Queries a key's summary metadata: child counts, name and data sizing
    /// hints, and the last-write timestamp. Metadata never fails; fields the
    /// backend cannot report come back zeroed.
    pub fn key_info(&self, key: KeyHandle) -> (r: KeyInfo)
        ensures
            r == self.backend.info_reply(spec_to_hkey(key)),
    {
        self.backend.key_info_raw(to_hkey(key))
    }

    /// Releases an opened key. Closing a well-known root is a no-op, and a
    /// close-time backend failure is discarded: closing never fails
    /// observably.
    pub fn close_key(&self, key: KeyHandle) {
        match key {
            KeyHandle::Opaque(h) => self.backend.close_raw(h),
            _ => {},
        }
    }

    /// Walks one child family from index zero and collects the names.
    fn enumerate_names(&self, h: isize, which: NameKind, count: u32, buf: &mut Vec<u16>) -> (r:
        Result<Vec<String>, RegError>)
        ensures
            ({
                match spec_enum(&self.backend, h, which, 0, count as int, old(buf)@.len() as nat) {
                    Ok(ns) => r matches Ok(v) && v@.len() == ns.len() && (forall|j: int|
                        0 <= j < ns.len() ==> v@[j]@ == chars_of_utf16(ns[j])),
                    Err(e) => r matches Err(e2) && e2 == e,
                }
            }),
    {
        let ghost cap = buf@.len() as nat;
        let mut names: Vec<String> = Vec::new();
        let ghost mut done = Seq::<Seq<u16>>::empty();
        let mut i: u32 = 0;
        proof {
            match spec_enum(&self.backend, h, which, 0, count as int, cap) {
                Ok(rest) => {
                    assert(done + rest =~= rest);
                },
                Err(_) => {},
            }
        }
        while i < count
            invariant
                i <= count,
                cap == old(buf)@.len() as nat,
                buf@.len() == cap,
                names@.len() == done.len(),
                forall|j: int| 0 <= j < done.len() ==> names@[j]@ == chars_of_utf16(done[j]),
                ({
                    match spec_enum(&self.backend, h, which, i as int, count as int, cap) {
                        Ok(rest) => spec_enum(&self.backend, h, which, 0, count as int, cap)
                            == Ok::<Seq<Seq<u16>>, RegError>(done + rest),
                        Err(e) => spec_enum(&self.backend, h, which, 0, count as int, cap) == Err::<
                            Seq<Seq<u16>>,
                            RegError,
                        >(e),
                    }
                }),
            decreases count - i,
        {
            let (status, len) = self.backend.name_at_raw(h, which, i, buf);
            if status == 0 {
                let ghost reply = self.backend.name_reply(h, which, i as int, cap);
                let ghost n = reply_name(reply);
                let name_units = vstd::slice::slice_subrange(buf.as_slice(), 0, len as usize);
                names.push(from_pwstr(name_units));
                proof {
                    match spec_enum(&self.backend, h, which, i + 1 as int, count as int, cap) {
                        Ok(rest2) => {
                            assert(spec_enum(&self.backend, h, which, i as int, count as int, cap)
                                == Ok::<Seq<Seq<u16>>, RegError>(seq![n] + rest2));
                            assert(done + (seq![n] + rest2) =~= done.push(n) + rest2);
                        },
                        Err(_) => {},
                    }
                    done = done.push(n);
                }
                i = i + 1;
            } else if status == STATUS_NO_MORE_ITEMS {
                proof {
                    assert(spec_enum(&self.backend, h, which, i as int, count as int, cap)
                        == Ok::<Seq<Seq<u16>>, RegError>(Seq::empty()));
                    assert(done + Seq::<Seq<u16>>::empty() =~= done);
                }
                return Ok(names);
            } else {
                proof {
                    assert(spec_enum(&self.backend, h, which, i as int, count as int, cap) == Err::<
                        Seq<Seq<u16>>,
                        RegError,
                    >(spec_map_status(status)));
                }
                return Err(map_status(status));
            }
        }
        proof {
            assert(spec_enum(&self.backend, h, which, i as int, count as int, cap) == Ok::<
                Seq<Seq<u16>>,
                RegError,
            >(Seq::empty()));
            assert(done + Seq::<Seq<u16>>::empty() =~= done);
        }
        Ok(names)
    }

    /// Lists every subkey name under an open key, in the backend's own
    /// order, using a name buffer sized from the key's metadata. Any fault
    /// other than exhaustion aborts with that error and no partial list.
    pub fn enumerate_keys(&self, key: KeyHandle) -> (r: Result<Vec<String>, RegError>)
        ensures
            ({
                let h = spec_to_hkey(key);
                let info = self.backend.info_reply(h);
                match spec_enum(
                    &self.backend,
                    h,
                    NameKind::Subkey,
                    0,
                    info.subkeys as int,
                    name_buf_cap(info.max_subkey_name_length),
                ) {
                    Ok(ns) => r matches Ok(v) && v@.len() == ns.len() && (forall|j: int|
                        0 <= j < ns.len() ==> v@[j]@ == chars_of_utf16(ns[j])),
                    Err(e) => r matches Err(e2) && e2 == e,
                }
            }),
    {
        let h = to_hkey(key);
        let info = self.backend.key_info_raw(h);
        let mut buf = name_buffer(info.max_subkey_name_length);
        self.enumerate_names(h, NameKind::Subkey, info.subkeys, &mut buf)
    }

    /// Lists every value name under an open key, in the backend's own order,
    /// using a name buffer sized from the key's metadata. Any fault other
    /// than exhaustion aborts with that error and no partial list.
    pub fn enumerate_values(&self, key: KeyHandle) -> (r: Result<Vec<String>, RegError>)
        ensures
            ({
                let h = spec_to_hkey(key);
                let info = self.backend.info_reply(h);
                match spec_enum(
                    &self.backend,
                    h,
                    NameKind::Value,
                    0,
                    info.values as int,
                    name_buf_cap(info.max_value_name_length),
                ) {
                    Ok(ns) => r matches Ok(v) && v@.len() == ns.len() && (forall|j: int|
                        0 <= j < ns.len() ==> v@[j]@ == chars_of_utf16(ns[j])),
                    Err(e) => r matches Err(e2) && e2 == e,
                }
            }),
    {
        let h = to_hkey(key);
        let info = self.backend.key_info_raw(h);
        let mut buf = name_buffer(info.max_value_name_length);
        self.enumerate_names(h, NameKind::Value, info.values, &mut buf)
    }

    /// Looks up the name of one child by index. An index at or past the
    /// metadata's current count yields no-more-data without consulting the
    /// backend's indexed lookup at all, whatever that lookup would answer.
    fn name_at(&self, key: KeyHandle, which: NameKind, pos: u32) -> (r: Result<String, RegError>)
        ensures
            ({
                let h = spec_to_hkey(key);
                let info = self.backend.info_reply(h);
                if pos >= count_for(info, which) {
                    r matches Err(e) && e == RegError::NoMoreData
                } else {
                    match self.backend.name_reply(
                        h,
                        which,
                        pos as int,
                        name_buf_cap(max_name_for(info, which)),
                    ) {
                        NameReply::Name(n) => r matches Ok(s) && s@ == chars_of_utf16(n),
                        NameReply::Fault(c) => r matches Err(e) && e == spec_map_status(c),
                    }
                }
            }),
    {
        let h = to_hkey(key);
        let info = self.backend.key_info_raw(h);
        let count = match which {
            NameKind::Subkey => info.subkeys,
            NameKind::Value => info.values,
        };
        if pos >= count {
            return Err(RegError::NoMoreData);
        }
        let max_len = match which {
            NameKind::Subkey => info.max_subkey_name_length,
            NameKind::Value => info.max_value_name_length,
        };
        let mut buf = name_buffer(max_len);
        let (status, len) = self.backend.name_at_raw(h, which, pos, &mut buf);
        if status == 0 {
            let name_units = vstd::slice::slice_subrange(buf.as_slice(), 0, len as usize);
            Ok(from_pwstr(name_units))
        } else {
            Err(map_status(status))
        }
    }

    /// Looks up the name of the subkey at an index. An index at or past the
    /// current subkey count yields no-more-data without a backend lookup.
    pub fn key_at(&self, key: KeyHandle, pos: u32) -> (r: Result<String, RegError>)
        ensures
            ({
                let h = spec_to_hkey(key);
                let info = self.backend.info_reply(h);
                if pos >= info.subkeys {
                    r matches Err(e) && e == RegError::NoMoreData
                } else {
                    match self.backend.name_reply(
                        h,
                        NameKind::Subkey,
                        pos as int,
                        name_buf_cap(info.max_subkey_name_length),
                    ) {
                        NameReply::Name(n) => r matches Ok(s) && s@ == chars_of_utf16(n),
                        NameReply::Fault(c) => r matches Err(e) && e == spec_map_status(c),
                    }
                }
            }),
    {
        self.name_at(key, NameKind::Subkey, pos)
    }

    /// Looks up the name of the value at an index. An index at or past the
    /// current value count yields no-more-data without a backend lookup.
    pub fn value_at(&self, key: KeyHandle, pos: u32) -> (r: Result<String, RegError>)
        ensures
            ({
                let h = spec_to_hkey(key);
                let info = self.backend.info_reply(h);
                if pos >= info.values {
                    r matches Err(e) && e == RegError::NoMoreData
                } else {
                    match self.backend.name_reply(
                        h,
                        NameKind::Value,
                        pos as int,
                        name_buf_cap(info.max_value_name_length),
                    ) {
                        NameReply::Name(n) => r matches Ok(s) && s@ == chars_of_utf16(n),
                        NameReply::Fault(c) => r matches Err(e) && e == spec_map_status(c),
                    }
                }
            }),
    {
        self.name_at(key, NameKind::Value, pos)
    }
}

/// Full enumeration over a backend that reports a name at every index below
/// the count yields exactly those names, in index order.
pub proof fn lemma_enumeration_complete<B: RegistryBackend>(
    b: &B,
    h: isize,
    which: NameKind,
    i: int,
    count: int,
    cap: nat,
)
    requires
        0 <= i <= count,
        forall|k: int|
            i <= k < count ==> (#[trigger] b.name_reply(h, which, k, cap)) matches NameReply::Name(
                _,
            ),
    ensures
        spec_enum(b, h, which, i, count, cap) matches Ok(ns) && ns.len() == count - i && (forall|
            k: int,
        |
            i <= k < count ==> ns[k - i] == reply_name(b.name_reply(h, which, k, cap))),
    decreases count - i,
{
    if i == count {
    } else {
        lemma_enumeration_complete(b, h, which, i + 1, count, cap);
        let n = reply_name(b.name_reply(h, which, i, cap));
        match spec_enum(b, h, which, i + 1, count, cap) {
            Ok(ns2) => {
                assert(spec_enum(b, h, which, i, count, cap) == Ok::<Seq<Seq<u16>>, RegError>(
                    seq![n] + ns2,
                ));
                assert forall|k: int|
                    i <= k < count implies (seq![n] + ns2)[k - i] == reply_name(
                    b.name_reply(h, which, k, cap),
                ) by {
                    if k > i {
                        assert((seq![n] + ns2)[k - i] == ns2[k - i - 1]);
                    }
                }
            },
            Err(_) => {
                assert(false);
            },
        }
    }
}

/// Full enumeration over a backend that faults, other than with exhaustion,
/// at some index behind only reported names surfaces that fault and no
/// partial list.
pub proof fn lemma_enumeration_aborts<B: RegistryBackend>(
    b: &B,
    h: isize,
    which: NameKind,
    i: int,
    count: int,
    cap: nat,
    k: int,
    c: u32,
)
    requires
        0 <= i <= k < count,
        forall|j: int|
            i <= j < k ==> (#[trigger] b.name_reply(h, which, j, cap)) matches NameReply::Name(_),
        b.name_reply(h, which, k, cap) == NameReply::Fault(c),
        c != STATUS_NO_MORE_ITEMS,
    ensures
        spec_enum(b, h, which, i, count, cap) == Err::<Seq<Seq<u16>>, RegError>(spec_map_status(c)),
    decreases k - i,
{
    if i < k {
        lemma_enumeration_aborts(b, h, which, i + 1, count, cap, k, c);
    }
}

/// The buffer-growth retry terminates: against a backend that answers every
/// capacity with "buffer too small", the query surfaces that status as an
/// error once the attempt ceiling runs out, whatever sizes the backend asks
/// for along the way.
pub proof fn lemma_query_retry_bounded<B: RegistryBackend>(
    b: &B,
    h: isize,
    name: Seq<u16>,
    cap: nat,
    fuel: nat,
)
    requires
        forall|c: nat| (#[trigger] b.value_reply(h, name, c)) matches DataReply::More(_),
    ensures
        spec_query(b, h, name, cap, fuel) == Err::<(u32, Seq<u8>), RegError>(
            RegError::Other(STATUS_MORE_DATA),
        ),
    decreases fuel,
{
    if fuel > 0 {
        match b.value_reply(h, name, cap) {
            DataReply::More(n) => {
                lemma_query_retry_bounded(b, h, name, n, (fuel - 1) as nat);
            },
            _ => {},
        }
    }
}

} // verus!
