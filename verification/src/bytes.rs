//! Little-endian byte arithmetic shared by the file formats.
use vstd::prelude::*;

verus! {

/// The low byte of a 16-bit value.
pub open spec fn lo_byte(v: u16) -> u8 {
    (v & 0xff) as u8
}

/// The high byte of a 16-bit value.
pub open spec fn hi_byte(v: u16) -> u8 {
    (v >> 8) as u8
}

/// The 16-bit value whose little-endian encoding is `[lo, hi]`.
pub open spec fn u16_le(lo: u8, hi: u8) -> u16 {
    ((lo as u16) | ((hi as u16) << 8)) as u16
}

/// The 32-bit value whose little-endian encoding is `[b0, b1, b2, b3]`.
pub open spec fn u32_le(b0: u8, b1: u8, b2: u8, b3: u8) -> int {
    (b0 as u32) + 256 * (b1 as u32) + 65536 * (b2 as u32) + 16777216 * (b3 as u32)
}

/// Encoding a 16-bit value and decoding it again gives the value back.
pub proof fn lemma_u16_le_roundtrip(v: u16)
    ensures
        u16_le(lo_byte(v), hi_byte(v)) == v,
{
    assert((((v & 0xff) as u8) as u16 | ((((v >> 8) as u8) as u16) << 8)) == v) by (bit_vector);
}

/// Decoding two bytes and encoding the value again gives the bytes back.
pub proof fn lemma_u16_le_bytes_roundtrip(lo: u8, hi: u8)
    ensures
        lo_byte(u16_le(lo, hi)) == lo,
        hi_byte(u16_le(lo, hi)) == hi,
{
    assert(((((lo as u16) | ((hi as u16) << 8)) as u16 & 0xff) as u8) == lo) by (bit_vector);
    assert(((((lo as u16) | ((hi as u16) << 8)) as u16 >> 8) as u8) == hi) by (bit_vector);
}

/// Computes the low byte of a 16-bit value.
pub fn u16_lo(v: u16) -> (b: u8)
    ensures
        b == lo_byte(v),
{
    (v & 0xff) as u8
}

/// Computes the high byte of a 16-bit value.
pub fn u16_hi(v: u16) -> (b: u8)
    ensures
        b == hi_byte(v),
{
    (v >> 8) as u8
}

/// Assembles a 16-bit value from its little-endian bytes.
pub fn u16_from_le(lo: u8, hi: u8) -> (v: u16)
    ensures
        v == u16_le(lo, hi),
{
    (lo as u16) | ((hi as u16) << 8)
}

/// Index arithmetic for row-major tables with rows of `m` entries.
pub proof fn lemma_row_col(r: int, c: int, m: int)
    requires
        0 <= r,
        0 <= c < m,
    ensures
        (r * m + c) / m == r,
        (r * m + c) % m == c,
        (r + 1) * m == r * m + m,
{
    assert((r * m + c) / m == r && (r * m + c) % m == c) by (nonlinear_arith)
        requires
            0 <= r,
            0 <= c < m,
    ;
    assert((r + 1) * m == r * m + m) by (nonlinear_arith);
}

} // verus!
