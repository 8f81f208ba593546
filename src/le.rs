//! Little-endian 16-bit integers in a byte sequence.
use vstd::prelude::*;

verus! {

/// The unsigned little-endian value of the two bytes at `at`.
pub open spec fn le_u16(b: Seq<u8>, at: int) -> int {
    b[at] + 256 * b[at + 1]
}

/// The two's complement little-endian value of the two bytes at `at`.
pub open spec fn le_i16(b: Seq<u8>, at: int) -> int {
    let u = le_u16(b, at);
    if u < 0x8000 {
        u
    } else {
        u - 0x10000
    }
}

/// The two bytes of `u`, a value below 0x10000, low byte first.
pub open spec fn word_bytes(u: int) -> Seq<u8> {
    seq![(u % 256) as u8, (u / 256) as u8]
}

/// The little-endian bytes of an unsigned 16-bit value.
pub open spec fn u16_le_bytes(v: u16) -> Seq<u8> {
    word_bytes(v as int)
}

/// The little-endian two's complement bytes of a signed 16-bit value.
pub open spec fn i16_le_bytes(v: i16) -> Seq<u8> {
    word_bytes(
        if v >= 0 {
            v as int
        } else {
            v + 0x10000
        },
    )
}

/// Reading a little-endian value back from its bytes gives the value.
pub proof fn lemma_le_of_bytes(v: u16, w: i16)
    ensures
        le_u16(u16_le_bytes(v), 0) == v,
        le_i16(i16_le_bytes(w), 0) == w,
{
}

/// Writing the value read at `at` gives back the two bytes at `at`.
pub proof fn lemma_bytes_of_le(b: Seq<u8>, at: int)
    requires
        0 <= at,
        at + 2 <= b.len(),
    ensures
        u16_le_bytes(le_u16(b, at) as u16) == b.subrange(at, at + 2),
        i16_le_bytes(le_i16(b, at) as i16) == b.subrange(at, at + 2),
{
    assert(u16_le_bytes(le_u16(b, at) as u16) =~= b.subrange(at, at + 2));
    assert(i16_le_bytes(le_i16(b, at) as i16) =~= b.subrange(at, at + 2));
}

/// Reads the unsigned little-endian value at `at`.
pub(crate) fn read_u16_le(b: &[u8], at: usize) -> (r: u16)
    requires
        at + 2 <= b@.len(),
    ensures
        r == le_u16(b@, at as int),
{
    b[at] as u16 + (b[at + 1] as u16) * 256
}

/// Reads the signed little-endian value at `at`.
pub(crate) fn read_i16_le(b: &[u8], at: usize) -> (r: i16)
    requires
        at + 2 <= b@.len(),
    ensures
        r == le_i16(b@, at as int),
{
    let u = read_u16_le(b, at);
    if u < 0x8000 {
        u as i16
    } else {
        (u as i32 - 0x10000) as i16
    }
}

/// Appends the little-endian bytes of `v`.
pub(crate) fn push_u16_le(out: &mut Vec<u8>, v: u16)
    ensures
        final(out)@ == old(out)@ + u16_le_bytes(v),
{
    out.push((v % 256) as u8);
    out.push((v / 256) as u8);
    assert(out@ =~= old(out)@ + u16_le_bytes(v));
}

/// Appends the little-endian two's complement bytes of `v`.
pub(crate) fn push_i16_le(out: &mut Vec<u8>, v: i16)
    ensures
        final(out)@ == old(out)@ + i16_le_bytes(v),
{
    let u: u16 = if v >= 0 {
        v as u16
    } else {
        (v as i32 + 0x10000) as u16
    };
    push_u16_le(out, u);
}

} // verus!
