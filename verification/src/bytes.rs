//! Little-endian decoding of 32-bit units out of a byte buffer.
//!
//! Every number in a checkpoint or vocabulary file is a 32-bit little-endian
//! unit: a signed header field, a vocabulary record length, or the raw bit
//! pattern of one weight. These functions decode them and are the sole
//! bridge between raw bytes and the rest of the library.

use vstd::prelude::*;

verus! {

/// The 32-bit little-endian unit that starts at byte `off` of `s`,
/// as an unsigned value.
pub open spec fn le_word(s: Seq<u8>, off: int) -> u32
    recommends
        0 <= off,
        off + 4 <= s.len(),
{
    (s[off] + s[off + 1] * 0x100 + s[off + 2] * 0x10000 + s[off + 3] * 0x1000000) as u32
}

/// The 32-bit little-endian unit that starts at byte `off` of `s`,
/// read as a two's-complement signed value.
pub open spec fn le_i32(s: Seq<u8>, off: int) -> int
    recommends
        0 <= off,
        off + 4 <= s.len(),
{
    if le_word(s, off) >= 0x8000_0000 {
        le_word(s, off) - 0x1_0000_0000
    } else {
        le_word(s, off) as int
    }
}

/// Decodes the unsigned 32-bit little-endian unit at byte `off`.
pub fn read_le_word(bytes: &[u8], off: usize) -> (r: u32)
    requires
        off + 4 <= bytes@.len(),
    ensures
        r == le_word(bytes@, off as int),
{
    let b0: u32 = bytes[off] as u32;
    let b1: u32 = bytes[off + 1] as u32;
    let b2: u32 = bytes[off + 2] as u32;
    let b3: u32 = bytes[off + 3] as u32;
    b0 + b1 * 0x100 + b2 * 0x10000 + b3 * 0x1000000
}

/// Decodes the signed 32-bit little-endian unit at byte `off` into its
/// magnitude and sign, so that callers never leave unsigned arithmetic.
pub fn read_le_i32_parts(bytes: &[u8], off: usize) -> (r: (u32, bool))
    requires
        off + 4 <= bytes@.len(),
    ensures
        ({
            let v = le_i32(bytes@, off as int);
            &&& (r.1 <==> v < 0)
            &&& (v >= 0 ==> r.0 == v)
            &&& (v < 0 ==> r.0 == -v)
        }),
{
    let w = read_le_word(bytes, off);
    if w >= 0x8000_0000 {
        ((u32::MAX - w) + 1, true)
    } else {
        (w, false)
    }
}

} // verus!
