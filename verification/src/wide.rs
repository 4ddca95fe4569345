//! Wide-string codec: the backend names keys and values, and stores its text
//! values, as 16-bit code units in little-endian byte order. Encoding never
//! fails; decoding is lossy and never fails either.

use vstd::prelude::*;

verus! {

/// The UTF-16 code units of a text, as `str::encode_utf16` produces them.
pub uninterp spec fn utf16_of(s: Seq<char>) -> Seq<u16>;

/// The text that lossy UTF-16 decoding makes of a code-unit sequence, as
/// `String::from_utf16_lossy` produces it: malformed unit sequences become
/// substitution markers, so decoding never fails.
pub uninterp spec fn chars_of_utf16(units: Seq<u16>) -> Seq<char>;

/// Relies on str::encode_utf16: the UTF-16 code units of a string. A Rust
/// string is valid Unicode, so lossy decoding of the result restores the
/// text exactly; only U+0000 encodes to a zero unit, so a text without NUL
/// characters yields no zero unit; a non-empty text yields at least one
/// unit, and the empty text yields none.
#[verifier::external_body]
pub(crate) fn utf16_units(s: &str) -> (r: Vec<u16>)
    ensures
        r@ == utf16_of(s@),
        chars_of_utf16(r@) == s@,
        s@.len() == 0 ==> r@.len() == 0,
        s@.len() > 0 ==> r@.len() > 0,
        (forall|i: int| 0 <= i < s@.len() ==> s@[i] != '\0') ==> (forall|i: int|
            0 <= i < r@.len() ==> r@[i] != 0u16),
{
    s.encode_utf16().collect()
}

/// Relies on String::from_utf16_lossy: best-effort reconstruction of a text
/// from 16-bit code units; it never fails, and an empty unit sequence
/// decodes to the empty text.
#[verifier::external_body]
pub fn from_pwstr(val: &[u16]) -> (r: String)
    ensures
        r@ == chars_of_utf16(val@),
        val@.len() == 0 ==> r@.len() == 0,
{
    String::from_utf16_lossy(val)
}

/// Encodes a text in the backend's name convention: its UTF-16 code units
/// followed by a single terminating zero unit.
pub fn to_pwstr(val: &str) -> (r: Vec<u16>)
    ensures
        r@ == utf16_of(val@).push(0u16),
        chars_of_utf16(utf16_of(val@)) == val@,
{
    let mut units = utf16_units(val);
    units.push(0u16);
    units
}

/// The 16-bit code units read from a little-endian byte buffer: consecutive
/// byte pairs, low byte first; a trailing odd byte stands alone as its own
/// unit rather than failing.
pub open spec fn units_of_bytes(b: Seq<u8>) -> Seq<u16> {
    Seq::new(
        (b.len() + 1) / 2,
        |k: int|
            if 2 * k + 1 < b.len() {
                (b[2 * k] + 256 * b[2 * k + 1]) as u16
            } else {
                b[2 * k] as u16
            },
    )
}

/// The little-endian bytes of a sequence of 16-bit code units.
pub open spec fn bytes_of_units(u: Seq<u16>) -> Seq<u8> {
    Seq::new(
        u.len() * 2,
        |k: int|
            if k % 2 == 0 {
                (u[k / 2] % 256) as u8
            } else {
                (u[k / 2] / 256) as u8
            },
    )
}

/// Reading code units back from their little-endian bytes restores them.
pub proof fn lemma_units_bytes_round_trip(u: Seq<u16>)
    ensures
        units_of_bytes(bytes_of_units(u)) == u,
{
    let b = bytes_of_units(u);
    assert forall|k: int| 0 <= k < u.len() implies units_of_bytes(b)[k] == u[k] by {
        assert((2 * k) % 2 == 0 && (2 * k) / 2 == k);
        assert((2 * k + 1) % 2 == 1 && (2 * k + 1) / 2 == k);
        vstd::arithmetic::div_mod::lemma_fundamental_div_mod(u[k] as int, 256);
    }
    assert(units_of_bytes(b) =~= u);
}

/// Reads the code units out of a little-endian byte buffer.
pub fn bytes_to_units(b: &[u8]) -> (r: Vec<u16>)
    ensures
        r@ == units_of_bytes(b@),
{
    let n = b.len();
    let mut r: Vec<u16> = Vec::new();
    let mut i: usize = 0;
    while i < n / 2
        invariant
            n == b@.len(),
            i <= n / 2,
            r@ =~= units_of_bytes(b@).take(i as int),
        decreases n / 2 - i,
    {
        let lo = *vstd::slice::slice_index_get(b, 2 * i);
        let hi = *vstd::slice::slice_index_get(b, 2 * i + 1);
        r.push(lo as u16 + (hi as u16) * 256);
        proof {
            assert(r@ =~= units_of_bytes(b@).take(i + 1));
        }
        i = i + 1;
    }
    if n % 2 == 1 {
        let last = *vstd::slice::slice_index_get(b, n - 1);
        r.push(last as u16);
    }
    proof {
        assert(r@ =~= units_of_bytes(b@));
    }
    r
}

/// Writes code units as a little-endian byte buffer.
pub fn units_to_bytes(u: &[u16]) -> (r: Vec<u8>)
    ensures
        r@ == bytes_of_units(u@),
{
    let n = u.len();
    let mut r: Vec<u8> = Vec::new();
    let mut i: usize = 0;
    while i < n
        invariant
            n == u@.len(),
            i <= n,
            r@ =~= bytes_of_units(u@).take(2 * i),
        decreases n - i,
    {
        let x = *vstd::slice::slice_index_get(u, i);
        r.push((x % 256) as u8);
        r.push((x / 256) as u8);
        proof {
            assert((2 * (i as int)) % 2 == 0 && (2 * (i as int)) / 2 == i as int);
            assert((2 * (i as int) + 1) % 2 == 1 && (2 * (i as int) + 1) / 2 == i as int);
            assert(r@ =~= bytes_of_units(u@).take(2 * (i + 1)));
        }
        i = i + 1;
    }
    proof {
        assert(r@ =~= bytes_of_units(u@));
    }
    r
}

} // verus!
