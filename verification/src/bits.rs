//! Facts about the bit operations that the packet encodings use.

use vstd::prelude::*;
use crate::device::le_u32;

verus! {

/// Testing the bit of weight `w` with `&` is reading digit `w` of the
/// binary number.
pub proof fn lemma_flag_bits(b: u8)
    ensures
        ((b & 1) != 0) == ((b / 1) % 2 == 1),
        ((b & 2) != 0) == ((b / 2) % 2 == 1),
        ((b & 4) != 0) == ((b / 4) % 2 == 1),
        ((b & 8) != 0) == ((b / 8) % 2 == 1),
        ((b & 16) != 0) == ((b / 16) % 2 == 1),
        ((b & 32) != 0) == ((b / 32) % 2 == 1),
        ((b & 64) != 0) == ((b / 64) % 2 == 1),
        ((b & 128) != 0) == ((b / 128) % 2 == 1),
{
    assert(((b & 1) != 0) == ((b / 1) % 2 == 1) && ((b & 2) != 0) == ((b / 2) % 2 == 1) && ((b & 4) != 0) == ((b / 4)
        % 2 == 1) && ((b & 8) != 0) == ((b / 8) % 2 == 1) && ((b & 16) != 0) == ((b / 16) % 2 == 1) && ((b & 32) != 0)
        == ((b / 32) % 2 == 1) && ((b & 64) != 0) == ((b / 64) % 2 == 1) && ((b & 128) != 0) == ((b / 128) % 2 == 1))
        by (bit_vector);
}

/// Testing bit `q` with a shifted mask is reading it with a shift.
pub proof fn lemma_mask_bit(b: u8, q: u8)
    requires
        q < 8,
    ensures
        ((b & (1u8 << q)) != 0) == ((b >> q) & 1 == 1),
{
    assert(((b & (1u8 << q)) != 0) == ((b >> q) & 1 == 1)) by (bit_vector)
        requires q < 8;
}

/// The four bytes of a little-endian value, joined with shifts, are the
/// value.
pub proof fn lemma_le_join(b0: u8, b1: u8, b2: u8, b3: u8)
    ensures
        (b0 as u32) | ((b1 as u32) << 8u32) | ((b2 as u32) << 16u32) | ((b3 as u32) << 24u32) == le_u32(b0, b1, b2, b3),
{
    assert((b0 as u32) | ((b1 as u32) << 8u32) | ((b2 as u32) << 16u32) | ((b3 as u32) << 24u32) == le_u32(b0, b1, b2,
        b3)) by (bit_vector);
}

/// The bytes of a value taken with masks and shifts are its base-256
/// digits.
pub proof fn lemma_le_split(v: u32)
    ensures
        (v & 0xFF) as u8 == (v % 256) as u8,
        ((v >> 8u32) & 0xFF) as u8 == ((v / 256) % 256) as u8,
        ((v >> 16u32) & 0xFF) as u8 == ((v / 65536) % 256) as u8,
        ((v >> 24u32) & 0xFF) as u8 == (v / 16777216) as u8,
{
    assert((v & 0xFF) as u8 == (v % 256) as u8 && ((v >> 8u32) & 0xFF) as u8 == ((v / 256) % 256) as u8 && ((v
        >> 16u32) & 0xFF) as u8 == ((v / 65536) % 256) as u8 && ((v >> 24u32) & 0xFF) as u8 == (v / 16777216) as u8)
        by (bit_vector);
}

/// The two nibbles of a byte.
pub proof fn lemma_nibbles(b: u8)
    ensures
        b & 0x0F == b % 16,
        (b >> 4u8) & 0x0F == b / 16,
        b & 0x3F == b % 64,
        b & 0x7F == b % 128,
{
    assert(b & 0x0F == b % 16 && (b >> 4u8) & 0x0F == b / 16 && b & 0x3F == b % 64 && b & 0x7F == b % 128)
        by (bit_vector);
}

} // verus!
