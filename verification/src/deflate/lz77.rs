//! LZ77 building blocks: the window limits and the hash that finds match candidates.
use vstd::prelude::*;

verus! {

/// The largest window, 32 KiB; also the size of the look-ahead buffer.
pub const MAX_WINDOW_SIZE: usize = 32 * 1024;

/// The longest match that DEFLATE can encode.
pub const MAX_MATCH_LENGTH: usize = 258;

/// The shortest match that DEFLATE can encode.
pub const MIN_MATCH_LENGTH: usize = 3;

/// One output token of LZ77: a literal, or a back reference.
pub enum Compressor<T> {
    Literal(T),
    Match { length: u16, offset: u16 },
}

/// An LZ77 encoder.
pub struct Lz77 {}

/// Bits of a hash value.
pub const HASH_BITS: usize = 15;

/// Number of distinct hash values, 32768.
pub const HASH_SIZE: usize = 32768;

/// The right shift that keeps the top `HASH_BITS` bits of a 32-bit product.
pub const HASH_SHIFT: usize = 17;

/// Knuth's multiplicative constant, 2^32 divided by the golden ratio.
pub const KNUTH_GOLDEN_RATIO: u32 = 0x9E3779B9;

/// The three bytes at a position read as a little-endian 24-bit number.
pub open spec fn packed3(b0: u8, b1: u8, b2: u8) -> u32 {
    (b0 as int + 0x100 * (b1 as int) + 0x10000 * (b2 as int)) as u32
}

/// The multiplicative hash of three bytes: the top 15 bits of the 32-bit product of
/// their little-endian value with `KNUTH_GOLDEN_RATIO`.
pub open spec fn hash3(b0: u8, b1: u8, b2: u8) -> usize {
    let product = ((packed3(b0, b1, b2) as int * KNUTH_GOLDEN_RATIO as int) % 0x1_0000_0000) as u32;
    (product >> 17u32) as usize
}

/// Fast, branchless 3-byte multiplicative hash for DEFLATE.
/// `data` must have at least 4 readable bytes starting at `pos`.
pub fn hash3_fast(data: &[u8], pos: usize) -> (h: usize)
    requires
        pos + 4 <= data@.len(),
    ensures
        h == hash3(data@[pos as int], data@[pos + 1], data@[pos + 2]),
        h < HASH_SIZE,
{
    let b0 = data[pos] as u32;
    let b1 = data[pos + 1] as u32;
    let b2 = data[pos + 2] as u32;
    let packed: u32 = b0 | (b1 << 8u32) | (b2 << 16u32);
    assert(packed == b0 + 0x100 * b1 + 0x10000 * b2) by (bit_vector)
        requires
            b0 < 0x100,
            b1 < 0x100,
            b2 < 0x100,
            packed == b0 | (b1 << 8u32) | (b2 << 16u32),
    ;
    let product = packed.wrapping_mul(KNUTH_GOLDEN_RATIO);
    let top = product >> 17u32;
    assert(top < 32768) by (bit_vector)
        requires
            top == product >> 17u32,
    ;
    top as usize
}

} // verus!
