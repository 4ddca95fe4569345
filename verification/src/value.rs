//! Typed value decoder: a pure function from a raw little-endian byte buffer
//! and a backend-reported type tag to a typed value, or a malformed-data
//! error. All edge-case policy lives here: size validation for the integer
//! tags, terminator stripping for the text tags, zero-unit splitting for the
//! multi-string tag.

use vstd::prelude::*;

use crate::status::RegError;
use crate::wide::bytes_to_units;
use crate::wide::chars_of_utf16;
use crate::wide::from_pwstr;
use crate::wide::lemma_units_bytes_round_trip;
use crate::wide::to_pwstr;
use crate::wide::units_of_bytes;
use crate::wide::units_to_bytes;
use crate::wide::utf16_of;
use crate::wide::utf16_units;

verus! {

/// The backend's type tags that the decoder implements.
pub const REG_SZ: u32 = 1;

pub const REG_EXPAND_SZ: u32 = 2;

pub const REG_BINARY: u32 = 3;

pub const REG_DWORD: u32 = 4;

pub const REG_MULTI_SZ: u32 = 7;

pub const REG_QWORD: u32 = 11;

/// A decoded registry value: a closed tagged union, its tag determined
/// solely by the backend-reported type code at decode time.
#[derive(Clone, Debug, PartialEq, Eq)]
pub enum TypedValue {
    /// A 32-bit unsigned integer.
    Int32(u32),
    /// A 64-bit unsigned integer.
    Int64(u64),
    /// A text value, terminator stripped.
    Text(String),
    /// A text value still holding unexpanded environment-variable references.
    ExpandableText(String),
    /// An ordered list of texts, stored as consecutive zero-terminated runs.
    TextList(Vec<String>),
    /// An opaque byte sequence, returned unchanged.
    Binary(Vec<u8>),
}

/// The mathematical shape of a typed value.
pub enum ValueView {
    Int32(u32),
    Int64(u64),
    Text(Seq<char>),
    ExpandableText(Seq<char>),
    TextList(Seq<Seq<char>>),
    Binary(Seq<u8>),
}

impl View for TypedValue {
    type V = ValueView;

    open spec fn view(&self) -> ValueView {
        match self {
            TypedValue::Int32(v) => ValueView::Int32(*v),
            TypedValue::Int64(v) => ValueView::Int64(*v),
            TypedValue::Text(s) => ValueView::Text(s@),
            TypedValue::ExpandableText(s) => ValueView::ExpandableText(s@),
            TypedValue::TextList(l) => ValueView::TextList(l.deep_view()),
            TypedValue::Binary(b) => ValueView::Binary(b@),
        }
    }
}

/// The value of exactly four little-endian bytes.
pub open spec fn le_u32_of(b: Seq<u8>) -> nat
    recommends
        b.len() == 4,
{
    (b[0] + 0x100 * b[1] + 0x10000 * b[2] + 0x1000000 * b[3]) as nat
}

/// The value of exactly eight little-endian bytes.
pub open spec fn le_u64_of(b: Seq<u8>) -> nat
    recommends
        b.len() == 8,
{
    (b[0] + 0x100 * b[1] + 0x10000 * b[2] + 0x1000000 * b[3] + 0x100000000 * b[4] + 0x10000000000
        * b[5] + 0x1000000000000 * b[6] + 0x100000000000000 * b[7]) as nat
}

/// The code units of a text value's payload: all of its units except the
/// final one, which is the terminating zero and is dropped before decoding.
pub open spec fn text_units(b: Seq<u8>) -> Seq<u16> {
    let u = units_of_bytes(b);
    if u.len() > 0 {
        u.drop_last()
    } else {
        u
    }
}

/// The index of the first zero unit, or the length when there is none.
pub open spec fn first_zero(u: Seq<u16>) -> nat
    decreases u.len(),
{
    if u.len() == 0 {
        0
    } else if u[0] == 0 {
        0
    } else {
        1 + first_zero(u.skip(1))
    }
}

/// Whether every unit of the sequence is zero.
pub open spec fn all_zero(u: Seq<u16>) -> bool {
    forall|j: int| 0 <= j < u.len() ==> u[j] == 0
}

/// The first zero is wherever a zero stands behind only non-zero units.
pub proof fn lemma_first_zero_is(u: Seq<u16>, m: nat)
    requires
        m <= u.len(),
        forall|j: int| 0 <= j < m ==> u[j] != 0,
        m < u.len() ==> u[m as int] == 0,
        m == u.len() ==> forall|j: int| 0 <= j < u.len() ==> u[j] != 0,
    ensures
        first_zero(u) == m,
    decreases u.len(),
{
    if u.len() == 0 {
    } else if u[0] == 0 {
        assert(m == 0);
    } else {
        assert(m > 0);
        lemma_first_zero_is(u.skip(1), (m - 1) as nat);
    }
}

/// The texts serialized in a multi-string buffer, as code-unit runs: split on
/// zero units; an empty run followed by more non-zero data yields an empty
/// entry; the list ends where a run would begin and only zero units remain.
pub open spec fn split_segments(u: Seq<u16>) -> Seq<Seq<u16>>
    decreases u.len(),
{
    if u.len() == 0 {
        Seq::empty()
    } else {
        let q = first_zero(u);
        if q == 0 && all_zero(u) {
            Seq::empty()
        } else if q >= u.len() {
            seq![u]
        } else {
            seq![u.take(q as int)] + split_segments(u.skip(q as int + 1))
        }
    }
}

/// How a raw byte buffer with the given type tag decodes. This is the whole
/// decoding policy: exact-size checks for the integer tags, terminator
/// stripping for the text tags, zero-run splitting for the multi-string tag,
/// bytes passed through for the binary tag, and an explicit failure for any
/// tag the decoder does not implement.
pub open spec fn spec_decode_value(b: Seq<u8>, tag: u32) -> Result<ValueView, RegError> {
    if tag == REG_DWORD {
        if b.len() == 4 {
            Ok(ValueView::Int32(le_u32_of(b) as u32))
        } else {
            Err(RegError::MalformedData)
        }
    } else if tag == REG_QWORD {
        if b.len() == 8 {
            Ok(ValueView::Int64(le_u64_of(b) as u64))
        } else {
            Err(RegError::MalformedData)
        }
    } else if tag == REG_SZ {
        Ok(ValueView::Text(chars_of_utf16(text_units(b))))
    } else if tag == REG_EXPAND_SZ {
        Ok(ValueView::ExpandableText(chars_of_utf16(text_units(b))))
    } else if tag == REG_MULTI_SZ {
        Ok(
            ValueView::TextList(
                split_segments(units_of_bytes(b)).map_values(|s: Seq<u16>| chars_of_utf16(s)),
            ),
        )
    } else if tag == REG_BINARY {
        Ok(ValueView::Binary(b))
    } else {
        Err(RegError::UnsupportedType)
    }
}

/// Splits a code-unit buffer into its zero-terminated runs.
fn split_zero_segments(u: &[u16]) -> (r: Vec<Vec<u16>>)
    ensures
        r.deep_view() == split_segments(u@),
{
    let n = u.len();
    let mut segs: Vec<Vec<u16>> = Vec::new();
    let mut p: usize = 0;
    proof {
        assert(u@.skip(0) =~= u@);
        assert(segs.deep_view() + split_segments(u@) =~~= split_segments(u@));
    }
    while p < n
        invariant
            n == u@.len(),
            p <= n,
            split_segments(u@) == segs.deep_view() + split_segments(u@.skip(p as int)),
        decreases n - p,
    {
        // find the next zero unit at or after p
        let mut q: usize = p;
        while q < n && *vstd::slice::slice_index_get(u, q) != 0
            invariant
                n == u@.len(),
                p <= q <= n,
                forall|j: int| p <= j < q ==> u@[j] != 0,
            decreases n - q,
        {
            q = q + 1;
        }
        proof {
            let rest = u@.skip(p as int);
            lemma_first_zero_is(rest, (q - p) as nat);
            assert(first_zero(rest) == q - p);
        }
        if q == p {
            // an empty run: it ends the list unless non-zero data follows
            let mut t: usize = p;
            while t < n && *vstd::slice::slice_index_get(u, t) == 0
                invariant
                    n == u@.len(),
                    p <= t <= n,
                    forall|j: int| p <= j < t ==> u@[j] == 0,
                decreases n - t,
            {
                t = t + 1;
            }
            if t == n {
                // only zero units remain
                proof {
                    let rest = u@.skip(p as int);
                    assert(all_zero(rest));
                    assert(split_segments(rest) =~~= Seq::<Seq<u16>>::empty());
                    assert(segs.deep_view() + Seq::<Seq<u16>>::empty() =~~= segs.deep_view());
                }
                return segs;
            }
            let ghost old_segs = segs.deep_view();
            segs.push(Vec::new());
            proof {
                let rest = u@.skip(p as int);
                assert(!all_zero(rest)) by {
                    assert(rest[t - p] != 0);
                }
                assert(rest.take(0) =~= Seq::<u16>::empty());
                assert(rest.skip(1) =~= u@.skip(p as int + 1));
                assert(segs.deep_view() =~~= old_segs.push(Seq::<u16>::empty()));
                assert(segs.deep_view() + split_segments(u@.skip(p as int + 1)) =~~= old_segs
                    + split_segments(rest));
            }
            p = p + 1;
        } else {
            let seg = vstd::slice::slice_to_vec(vstd::slice::slice_subrange(u, p, q));
            let ghost old_segs = segs.deep_view();
            segs.push(seg);
            proof {
                let rest = u@.skip(p as int);
                assert(segs.deep_view() =~~= old_segs.push(seg@));
                if q == n {
                    assert(first_zero(rest) >= rest.len());
                    assert(seg@ =~= rest);
                    assert(split_segments(rest) =~~= seq![rest]);
                    assert(segs.deep_view() =~~= old_segs + split_segments(rest));
                    assert(split_segments(u@.skip(n as int)) =~~= Seq::<Seq<u16>>::empty());
                    assert(segs.deep_view() + split_segments(u@.skip(n as int)) =~~= segs.deep_view());
                } else {
                    assert(rest[q - p] == 0);
                    assert(first_zero(rest) < rest.len());
                    assert(!(first_zero(rest) == 0 && all_zero(rest))) by {
                        assert(rest[0] != 0);
                    }
                    assert(seg@ =~= rest.take(first_zero(rest) as int));
                    assert(rest.skip(first_zero(rest) as int + 1) =~= u@.skip(q as int + 1));
                    assert(split_segments(rest) =~~= seq![seg@] + split_segments(
                        u@.skip(q as int + 1),
                    ));
                    assert(segs.deep_view() + split_segments(u@.skip(q as int + 1)) =~~= old_segs
                        + split_segments(rest));
                }
            }
            p = if q < n {
                q + 1
            } else {
                q
            };
        }
    }
    proof {
        assert(u@.skip(n as int) =~= Seq::<u16>::empty());
        assert(split_segments(u@.skip(p as int)) =~~= Seq::<Seq<u16>>::empty());
        assert(segs.deep_view() + Seq::<Seq<u16>>::empty() =~~= segs.deep_view());
    }
    segs
}

/// Decodes a raw byte buffer under the backend-reported type tag. A size
/// that does not match an integer tag is malformed data, never a truncated
/// integer; an unimplemented tag fails explicitly rather than dropping data.
pub fn decode_value(bytes: &[u8], tag: u32) -> (r: Result<TypedValue, RegError>)
    ensures
        ({
            match spec_decode_value(bytes@, tag) {
                Ok(v) => r matches Ok(tv) && tv@ == v,
                Err(e) => r matches Err(e2) && e2 == e,
            }
        }),
        tag == REG_DWORD && bytes@.len() != 4 ==> (r matches Err(e) && e
            == RegError::MalformedData),
{
    if tag == REG_DWORD {
        if bytes.len() != 4 {
            return Err(RegError::MalformedData);
        }
        let b0 = *vstd::slice::slice_index_get(bytes, 0);
        let b1 = *vstd::slice::slice_index_get(bytes, 1);
        let b2 = *vstd::slice::slice_index_get(bytes, 2);
        let b3 = *vstd::slice::slice_index_get(bytes, 3);
        let v: u32 = b0 as u32 + (b1 as u32) * 0x100 + (b2 as u32) * 0x10000 + (b3 as u32)
            * 0x1000000;
        Ok(TypedValue::Int32(v))
    } else if tag == REG_QWORD {
        if bytes.len() != 8 {
            return Err(RegError::MalformedData);
        }
        let b0 = *vstd::slice::slice_index_get(bytes, 0);
        let b1 = *vstd::slice::slice_index_get(bytes, 1);
        let b2 = *vstd::slice::slice_index_get(bytes, 2);
        let b3 = *vstd::slice::slice_index_get(bytes, 3);
        let b4 = *vstd::slice::slice_index_get(bytes, 4);
        let b5 = *vstd::slice::slice_index_get(bytes, 5);
        let b6 = *vstd::slice::slice_index_get(bytes, 6);
        let b7 = *vstd::slice::slice_index_get(bytes, 7);
        let v: u64 = b0 as u64 + (b1 as u64) * 0x100 + (b2 as u64) * 0x10000 + (b3 as u64)
            * 0x1000000 + (b4 as u64) * 0x100000000 + (b5 as u64) * 0x10000000000 + (b6 as u64)
            * 0x1000000000000 + (b7 as u64) * 0x100000000000000;
        Ok(TypedValue::Int64(v))
    } else if tag == REG_SZ || tag == REG_EXPAND_SZ {
        let units = bytes_to_units(bytes);
        let n = units.len();
        let payload = if n > 0 {
            vstd::slice::slice_subrange(units.as_slice(), 0, n - 1)
        } else {
            units.as_slice()
        };
        proof {
            assert(payload@ =~= text_units(bytes@));
        }
        let text = from_pwstr(payload);
        if tag == REG_SZ {
            Ok(TypedValue::Text(text))
        } else {
            Ok(TypedValue::ExpandableText(text))
        }
    } else if tag == REG_MULTI_SZ {
        let units = bytes_to_units(bytes);
        let segs = split_zero_segments(units.as_slice());
        let mut items: Vec<String> = Vec::new();
        let mut i: usize = 0;
        while i < segs.len()
            invariant
                i <= segs@.len(),
                items@.len() == i,
                forall|j: int| 0 <= j < i ==> items@[j]@ == chars_of_utf16(segs.deep_view()[j]),
            decreases segs@.len() - i,
        {
            proof {
                assert(segs.deep_view()[i as int] =~= segs@[i as int]@);
            }
            items.push(from_pwstr(segs[i].as_slice()));
            i = i + 1;
        }
        proof {
            let mapped = split_segments(units_of_bytes(bytes@)).map_values(
                |s: Seq<u16>| chars_of_utf16(s),
            );
            assert(items.deep_view() =~~= mapped);
        }
        Ok(TypedValue::TextList(items))
    } else if tag == REG_BINARY {
        Ok(TypedValue::Binary(vstd::slice::slice_to_vec(bytes)))
    } else {
        Err(RegError::UnsupportedType)
    }
}

/// Builds the four little-endian bytes of a 32-bit integer; they decode back
/// to exactly that integer.
pub fn encode_u32_le(v: u32) -> (r: Vec<u8>)
    ensures
        r@.len() == 4,
        le_u32_of(r@) == v as nat,
        spec_decode_value(r@, REG_DWORD) == Ok::<ValueView, RegError>(ValueView::Int32(v)),
{
    let b0: u8 = (v & 0xff) as u8;
    let b1: u8 = ((v >> 8) & 0xff) as u8;
    let b2: u8 = ((v >> 16) & 0xff) as u8;
    let b3: u8 = ((v >> 24) & 0xff) as u8;
    let mut r: Vec<u8> = Vec::new();
    r.push(b0);
    r.push(b1);
    r.push(b2);
    r.push(b3);
    proof {
        assert(v & 0xff < 256) by (bit_vector);
        assert((v >> 8) & 0xff < 256) by (bit_vector);
        assert((v >> 16) & 0xff < 256) by (bit_vector);
        assert((v >> 24) & 0xff < 256) by (bit_vector);
        assert((v & 0xff) + 0x100 * ((v >> 8) & 0xff) + 0x10000 * ((v >> 16) & 0xff) + 0x1000000 * (
        (v >> 24) & 0xff) == v) by (bit_vector);
    }
    r
}

/// Builds the eight little-endian bytes of a 64-bit integer; they decode
/// back to exactly that integer.
pub fn encode_u64_le(v: u64) -> (r: Vec<u8>)
    ensures
        r@.len() == 8,
        le_u64_of(r@) == v as nat,
        spec_decode_value(r@, REG_QWORD) == Ok::<ValueView, RegError>(ValueView::Int64(v)),
{
    let b0: u8 = (v & 0xff) as u8;
    let b1: u8 = ((v >> 8) & 0xff) as u8;
    let b2: u8 = ((v >> 16) & 0xff) as u8;
    let b3: u8 = ((v >> 24) & 0xff) as u8;
    let b4: u8 = ((v >> 32) & 0xff) as u8;
    let b5: u8 = ((v >> 40) & 0xff) as u8;
    let b6: u8 = ((v >> 48) & 0xff) as u8;
    let b7: u8 = ((v >> 56) & 0xff) as u8;
    let mut r: Vec<u8> = Vec::new();
    r.push(b0);
    r.push(b1);
    r.push(b2);
    r.push(b3);
    r.push(b4);
    r.push(b5);
    r.push(b6);
    r.push(b7);
    proof {
        assert(v & 0xff < 256) by (bit_vector);
        assert((v >> 8) & 0xff < 256) by (bit_vector);
        assert((v >> 16) & 0xff < 256) by (bit_vector);
        assert((v >> 24) & 0xff < 256) by (bit_vector);
        assert((v >> 32) & 0xff < 256) by (bit_vector);
        assert((v >> 40) & 0xff < 256) by (bit_vector);
        assert((v >> 48) & 0xff < 256) by (bit_vector);
        assert((v >> 56) & 0xff < 256) by (bit_vector);
        assert((v & 0xff) + 0x100 * ((v >> 8) & 0xff) + 0x10000 * ((v >> 16) & 0xff) + 0x1000000 * (
        (v >> 24) & 0xff) + 0x100000000 * ((v >> 32) & 0xff) + 0x10000000000 * ((v >> 40) & 0xff)
            + 0x1000000000000 * ((v >> 48) & 0xff) + 0x100000000000000 * ((v >> 56) & 0xff) == v)
            by (bit_vector);
    }
    r
}

/// Builds a text value's bytes: the text's code units, a terminating zero
/// unit, all as little-endian bytes.
fn terminated_wide_bytes(s: &str) -> (r: Vec<u8>)
    ensures
        units_of_bytes(r@) == utf16_of(s@).push(0u16),
        chars_of_utf16(utf16_of(s@)) == s@,
{
    let units = to_pwstr(s);
    let r = units_to_bytes(units.as_slice());
    proof {
        lemma_units_bytes_round_trip(utf16_of(s@).push(0u16));
    }
    r
}

/// Builds a buffer that decodes under the text tag to exactly the given
/// text.
pub fn encode_text(s: &str) -> (r: Vec<u8>)
    ensures
        spec_decode_value(r@, REG_SZ) == Ok::<ValueView, RegError>(ValueView::Text(s@)),
{
    let r = terminated_wide_bytes(s);
    proof {
        assert(text_units(r@) =~= utf16_of(s@));
    }
    r
}

/// Builds a buffer that decodes under the expandable-text tag to exactly the
/// given text.
pub fn encode_expandable_text(s: &str) -> (r: Vec<u8>)
    ensures
        spec_decode_value(r@, REG_EXPAND_SZ) == Ok::<ValueView, RegError>(
            ValueView::ExpandableText(s@),
        ),
{
    let r = terminated_wide_bytes(s);
    proof {
        assert(text_units(r@) =~= utf16_of(s@));
    }
    r
}

/// Builds a buffer that decodes under the binary tag to exactly the given
/// bytes.
pub fn encode_binary(b: &[u8]) -> (r: Vec<u8>)
    ensures
        spec_decode_value(r@, REG_BINARY) == Ok::<ValueView, RegError>(ValueView::Binary(b@)),
{
    vstd::slice::slice_to_vec(b)
}

/// The serialized form of a list of texts: each text's code units followed
/// by a zero terminator, then one final zero terminator.
pub open spec fn multi_units(items: Seq<Seq<char>>) -> Seq<u16>
    decreases items.len(),
{
    if items.len() == 0 {
        seq![0u16]
    } else {
        utf16_of(items[0]) + seq![0u16] + multi_units(items.skip(1))
    }
}

/// Whether a list of texts survives the multi-string serialization: an empty
/// text or an embedded NUL character would collide with the zero terminators
/// that separate the runs.
pub open spec fn text_list_encodable(items: Seq<Seq<char>>) -> bool {
    forall|i: int|
        0 <= i < items.len() ==> ((#[trigger] items[i]).len() > 0 && (forall|j: int|
            0 <= j < items[i].len() ==> items[i][j] != '\0'))
}

/// A lone zero terminator splits into no runs at all.
pub proof fn lemma_split_terminator()
    ensures
        split_segments(seq![0u16]) == Seq::<Seq<u16>>::empty(),
{
    let u = seq![0u16];
    lemma_first_zero_is(u, 0);
    assert(all_zero(u));
}

/// A non-empty zero-free run followed by its terminator splits off as the
/// first segment.
pub proof fn lemma_split_prepend(s: Seq<u16>, rest: Seq<u16>)
    requires
        s.len() > 0,
        forall|j: int| 0 <= j < s.len() ==> s[j] != 0,
    ensures
        split_segments(s + seq![0u16] + rest) == seq![s] + split_segments(rest),
{
    let u = s + seq![0u16] + rest;
    assert forall|j: int| 0 <= j < s.len() implies u[j] != 0 by {
        assert(u[j] == s[j]);
    }
    assert(u[s.len() as int] == 0);
    lemma_first_zero_is(u, s.len());
    assert(u.take(s.len() as int) =~= s);
    assert(u.skip(s.len() as int + 1) =~= rest);
    assert(split_segments(u) =~~= seq![s] + split_segments(rest));
}

/// Splitting the serialized form of an encodable list of texts restores the
/// texts' code-unit runs, in order.
pub proof fn lemma_split_multi(items: Seq<Seq<char>>)
    requires
        forall|i: int|
            0 <= i < items.len() ==> ((#[trigger] utf16_of(items[i])).len() > 0 && (forall|j: int|
                0 <= j < utf16_of(items[i]).len() ==> utf16_of(items[i])[j] != 0)),
    ensures
        split_segments(multi_units(items)) == items.map_values(|s: Seq<char>| utf16_of(s)),
    decreases items.len(),
{
    if items.len() == 0 {
        lemma_split_terminator();
        assert(items.map_values(|s: Seq<char>| utf16_of(s)) =~= Seq::<Seq<u16>>::empty());
    } else {
        let tail = items.skip(1);
        assert forall|i: int|
            0 <= i < tail.len() implies ((#[trigger] utf16_of(tail[i])).len() > 0 && (forall|
        j: int,
        |
            0 <= j < utf16_of(tail[i]).len() ==> utf16_of(tail[i])[j] != 0)) by {
            assert(tail[i] == items[i + 1]);
        }
        lemma_split_multi(tail);
        lemma_split_prepend(utf16_of(items[0]), multi_units(tail));
        assert(tail.map_values(|s: Seq<char>| utf16_of(s)) =~= items.map_values(
            |s: Seq<char>| utf16_of(s),
        ).skip(1));
        assert(split_segments(multi_units(items)) =~~= items.map_values(
            |s: Seq<char>| utf16_of(s),
        ));
    }
}

/// Builds a buffer that decodes under the multi-string tag to exactly the
/// given list of texts. Empty texts and texts holding a NUL character have
/// no faithful serialized form, so they are excluded.
pub fn encode_text_list(items: &Vec<String>) -> (r: Vec<u8>)
    requires
        text_list_encodable(items.deep_view()),
    ensures
        spec_decode_value(r@, REG_MULTI_SZ) == Ok::<ValueView, RegError>(
            ValueView::TextList(items.deep_view()),
        ),
{
    let ghost dv = items.deep_view();
    let mut units: Vec<u16> = Vec::new();
    let mut i: usize = 0;
    proof {
        assert(dv.skip(0) =~= dv);
        assert(units@ + multi_units(dv) =~= multi_units(dv));
    }
    while i < items.len()
        invariant
            i <= items@.len(),
            dv == items.deep_view(),
            dv.len() == items@.len(),
            text_list_encodable(dv),
            multi_units(dv) == units@ + multi_units(dv.skip(i as int)),
            forall|j: int|
                0 <= j < i ==> (chars_of_utf16(utf16_of(#[trigger] dv[j])) == dv[j] && utf16_of(
                    dv[j],
                ).len() > 0 && (forall|k: int|
                    0 <= k < utf16_of(dv[j]).len() ==> utf16_of(dv[j])[k] != 0)),
        decreases items@.len() - i,
    {
        proof {
            assert(dv[i as int] == items@[i as int]@);
        }
        let mut w = utf16_units(items[i].as_str());
        units.append(&mut w);
        units.push(0u16);
        proof {
            assert(dv.skip(i as int)[0] == dv[i as int]);
            assert(dv.skip(i as int).skip(1) =~= dv.skip(i as int + 1));
            assert(multi_units(dv) =~= units@ + multi_units(dv.skip(i as int + 1)));
        }
        i = i + 1;
    }
    units.push(0u16);
    proof {
        assert(dv.skip(dv.len() as int) =~= Seq::<Seq<char>>::empty());
        assert(multi_units(dv) =~= units@);
    }
    let r = units_to_bytes(units.as_slice());
    proof {
        lemma_units_bytes_round_trip(units@);
        lemma_split_multi(dv);
        let mapped_units = dv.map_values(|s: Seq<char>| utf16_of(s));
        assert(split_segments(units_of_bytes(r@)) == mapped_units);
        assert(mapped_units.map_values(|s: Seq<u16>| chars_of_utf16(s)) =~~= dv);
    }
    r
}

/// Whether a typed value can be serialized faithfully; only a text list with
/// an empty or NUL-holding entry cannot.
pub open spec fn encodable(v: ValueView) -> bool {
    match v {
        ValueView::TextList(items) => text_list_encodable(items),
        _ => true,
    }
}

/// Encoding then decoding restores any encodable typed value: for every
/// supported tag, this builds a buffer and the tag under which it decodes
/// back to exactly the given value.
pub fn encode_value(value: &TypedValue) -> (r: (Vec<u8>, u32))
    requires
        encodable(value@),
    ensures
        spec_decode_value(r.0@, r.1) == Ok::<ValueView, RegError>(value@),
{
    match value {
        TypedValue::Int32(v) => (encode_u32_le(*v), REG_DWORD),
        TypedValue::Int64(v) => (encode_u64_le(*v), REG_QWORD),
        TypedValue::Text(s) => (encode_text(s.as_str()), REG_SZ),
        TypedValue::ExpandableText(s) => (encode_expandable_text(s.as_str()), REG_EXPAND_SZ),
        TypedValue::TextList(items) => (encode_text_list(items), REG_MULTI_SZ),
        TypedValue::Binary(b) => (encode_binary(b.as_slice()), REG_BINARY),
    }
}

} // verus!
