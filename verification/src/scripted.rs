//! A deterministic in-memory backend: it answers every primitive from plain
//! data held in the struct, so a reader can be exercised without a host
//! registry. Each reply field scripts one primitive; a scripted failure code
//! of zero, or the buffer-too-small code where the interface reserves it,
//! is reported as exhaustion instead, since the interface keeps those codes
//! for success and for the size protocol.

use vstd::prelude::*;

use crate::backend::DataReply;
use crate::backend::KeyInfo;
use crate::backend::NameKind;
use crate::backend::NameReply;
use crate::backend::RegistryBackend;
use crate::status::STATUS_MORE_DATA;
use crate::status::STATUS_NO_MORE_ITEMS;

verus! {

/// What the backend holds at one child index: a name to report, or a status
/// code to fail with.
pub enum NameScript {
    Present(Vec<u16>),
    Failing(u32),
}

/// What the backend answers to every value query: a tagged datum, delivered
/// through the size protocol; a "buffer too small" of the given size no
/// matter the capacity offered; or a status code to fail with.
pub enum ValueScript {
    Data(u32, Vec<u8>),
    Starved(u32),
    Failing(u32),
}

/// An in-memory backend with scripted replies.
pub struct ScriptedBackend {
    pub open_result: Result<isize, u32>,
    pub info: KeyInfo,
    pub subkey_names: Vec<NameScript>,
    pub value_names: Vec<NameScript>,
    pub value: ValueScript,
}

impl ScriptedBackend {
    /// Copies a scripted name into the front of a caller's buffer, keeping
    /// the buffer's length and its remaining tail.
    fn deliver(n: &Vec<u16>, buf: &mut Vec<u16>)
        requires
            n@.len() <= old(buf)@.len(),
        ensures
            final(buf)@.len() == old(buf)@.len(),
            final(buf)@.take(n@.len() as int) == n@,
    {
        let mut nb: Vec<u16> = Vec::new();
        let mut j: usize = 0;
        while j < n.len()
            invariant
                j <= n@.len(),
                nb@ == n@.take(j as int),
            decreases n@.len() - j,
        {
            nb.push(n[j]);
            proof {
                assert(nb@ =~= n@.take(j + 1));
            }
            j = j + 1;
        }
        proof {
            assert(nb@ =~= n@);
        }
        let mut k: usize = n.len();
        while k < buf.len()
            invariant
                n@.len() <= k <= buf@.len(),
                buf@ == old(buf)@,
                nb@.len() == k,
                nb@.take(n@.len() as int) == n@,
            decreases buf@.len() - k,
        {
            nb.push(buf[k]);
            proof {
                assert(nb@.take(n@.len() as int) =~= n@);
            }
            k = k + 1;
        }
        *buf = nb;
    }
}

/// Copies scripted bytes into the front of a caller's buffer, keeping the
/// buffer's length and its remaining tail.
fn deliver_bytes(n: &Vec<u8>, buf: &mut Vec<u8>)
    requires
        n@.len() <= old(buf)@.len(),
    ensures
        final(buf)@.len() == old(buf)@.len(),
        final(buf)@.take(n@.len() as int) == n@,
{
    let mut nb: Vec<u8> = Vec::new();
    let mut j: usize = 0;
    while j < n.len()
        invariant
            j <= n@.len(),
            nb@ == n@.take(j as int),
        decreases n@.len() - j,
    {
        nb.push(n[j]);
        proof {
            assert(nb@ =~= n@.take(j + 1));
        }
        j = j + 1;
    }
    proof {
        assert(nb@ =~= n@);
    }
    let mut k: usize = n.len();
    while k < buf.len()
        invariant
            n@.len() <= k <= buf@.len(),
            buf@ == old(buf)@,
            nb@.len() == k,
            nb@.take(n@.len() as int) == n@,
        decreases buf@.len() - k,
    {
        nb.push(buf[k]);
        proof {
            assert(nb@.take(n@.len() as int) =~= n@);
        }
        k = k + 1;
    }
    *buf = nb;
}

impl RegistryBackend for ScriptedBackend {
    open spec fn open_reply(&self, h: isize, path: Seq<u16>) -> Result<isize, u32> {
        self.open_result
    }

    open spec fn info_reply(&self, h: isize) -> KeyInfo {
        self.info
    }

    open spec fn name_reply(&self, h: isize, which: NameKind, index: int, cap: nat) -> NameReply {
        let scripts = match which {
            NameKind::Subkey => self.subkey_names@,
            NameKind::Value => self.value_names@,
        };
        if 0 <= index < scripts.len() {
            match scripts[index] {
                NameScript::Present(n) => if n@.len() <= cap && n@.len() <= u32::MAX as nat {
                    NameReply::Name(n@)
                } else {
                    NameReply::Fault(STATUS_MORE_DATA)
                },
                NameScript::Failing(c) => NameReply::Fault(
                    if c == 0 {
                        STATUS_NO_MORE_ITEMS
                    } else {
                        c
                    },
                ),
            }
        } else {
            NameReply::Fault(STATUS_NO_MORE_ITEMS)
        }
    }

    open spec fn value_reply(&self, h: isize, name: Seq<u16>, cap: nat) -> DataReply {
        match self.value {
            ValueScript::Data(tag, bytes) => if bytes@.len() <= cap && bytes@.len() <= u32::MAX
                as nat {
                DataReply::Data(tag, bytes@)
            } else if bytes@.len() <= u32::MAX as nat {
                DataReply::More(bytes@.len())
            } else {
                DataReply::More(u32::MAX as nat)
            },
            ValueScript::Starved(n) => DataReply::More(n as nat),
            ValueScript::Failing(c) => DataReply::Fault(
                if c == 0 || c == STATUS_MORE_DATA {
                    STATUS_NO_MORE_ITEMS
                } else {
                    c
                },
            ),
        }
    }

    fn open_raw(&self, h: isize, path: &[u16]) -> (r: Result<isize, u32>) {
        self.open_result
    }

    fn key_info_raw(&self, h: isize) -> (r: KeyInfo) {
        self.info
    }

    fn name_at_raw(&self, h: isize, which: NameKind, index: u32, buf: &mut Vec<u16>) -> (r: (
        u32,
        u32,
    )) {
        let scripts: &Vec<NameScript> = match which {
            NameKind::Subkey => &self.subkey_names,
            NameKind::Value => &self.value_names,
        };
        if (index as usize) < scripts.len() {
            match &scripts[index as usize] {
                NameScript::Present(n) => {
                    if n.len() <= buf.len() && n.len() <= (u32::MAX as usize) {
                        Self::deliver(n, buf);
                        (0u32, n.len() as u32)
                    } else {
                        (STATUS_MORE_DATA, 0u32)
                    }
                },
                NameScript::Failing(c) => {
                    let code = if *c == 0 {
                        STATUS_NO_MORE_ITEMS
                    } else {
                        *c
                    };
                    (code, 0u32)
                },
            }
        } else {
            (STATUS_NO_MORE_ITEMS, 0u32)
        }
    }

    fn query_value_raw(&self, h: isize, name: &[u16], buf: &mut Vec<u8>) -> (r: (u32, u32, u32)) {
        match &self.value {
            ValueScript::Data(tag, bytes) => {
                if bytes.len() <= buf.len() && bytes.len() <= (u32::MAX as usize) {
                    deliver_bytes(bytes, buf);
                    (0u32, *tag, bytes.len() as u32)
                } else if bytes.len() <= (u32::MAX as usize) {
                    (STATUS_MORE_DATA, 0u32, bytes.len() as u32)
                } else {
                    (STATUS_MORE_DATA, 0u32, u32::MAX)
                }
            },
            ValueScript::Starved(n) => (STATUS_MORE_DATA, 0u32, *n),
            ValueScript::Failing(c) => {
                let code = if *c == 0 || *c == STATUS_MORE_DATA {
                    STATUS_NO_MORE_ITEMS
                } else {
                    *c
                };
                (code, 0u32, 0u32)
            },
        }
    }

    fn close_raw(&self, h: isize) {
    }
}

} // verus!
