//! Bits and little-endian integers inside byte buffers.

use vstd::prelude::*;

verus! {

/// Bit `n` of `byte`, counted from the least significant one.
pub open spec fn has_bit(byte: u8, n: u8) -> bool {
    (byte >> n) % 2 == 1
}

/// The number that two bytes form, the least significant one first.
pub open spec fn le_u16(lo: u8, hi: u8) -> int {
    lo + 256 * hi
}

/// The number that two bytes form in two's complement, the least significant one first.
pub open spec fn le_i16(lo: u8, hi: u8) -> int {
    if hi < 128 {
        le_u16(lo, hi)
    } else {
        le_u16(lo, hi) - 65536
    }
}

/// The number that four bytes form, the least significant one first.
pub open spec fn le_u32(b0: u8, b1: u8, b2: u8, b3: u8) -> int {
    le_u16(b0, b1) + 65536 * le_u16(b2, b3)
}

/// Tells whether bit `n` of `byte` is set.
pub fn bit(byte: u8, n: u8) -> (set: bool)
    requires
        n < 8,
    ensures
        set == has_bit(byte, n),
{
    assert((byte & (1u8 << n) != 0) == ((byte >> n) % 2 == 1)) by (bit_vector)
        requires
            n < 8,
    ;
    byte & (1u8 << n) != 0
}

/// Reads an unsigned 16-bit number stored with its low byte first.
pub fn u16_from_le(lo: u8, hi: u8) -> (n: u16)
    ensures
        n == le_u16(lo, hi),
{
    lo as u16 + 256 * hi as u16
}

/// Reads a signed 16-bit number stored with its low byte first.
pub fn i16_from_le(lo: u8, hi: u8) -> (n: i16)
    ensures
        n == le_i16(lo, hi),
{
    let unsigned: i32 = lo as i32 + 256 * hi as i32;
    if hi < 128 {
        unsigned as i16
    } else {
        (unsigned - 65536) as i16
    }
}

/// Reads an unsigned 32-bit number stored with its low byte first.
pub fn u32_from_le(b0: u8, b1: u8, b2: u8, b3: u8) -> (n: u32)
    ensures
        n == le_u32(b0, b1, b2, b3),
{
    u16_from_le(b0, b1) as u32 + 65536 * u16_from_le(b2, b3) as u32
}

// ── Laws ─────────────────────────────────────────────────────────────────────

/// A byte is the sum of the powers of two of its bits that are set.
pub proof fn lemma_bits_make_the_byte(b: u8)
    ensures
        b == (if has_bit(b, 0) {
            1int
        } else {
            0
        }) + (if has_bit(b, 1) {
            2int
        } else {
            0
        }) + (if has_bit(b, 2) {
            4int
        } else {
            0
        }) + (if has_bit(b, 3) {
            8int
        } else {
            0
        }) + (if has_bit(b, 4) {
            16int
        } else {
            0
        }) + (if has_bit(b, 5) {
            32int
        } else {
            0
        }) + (if has_bit(b, 6) {
            64int
        } else {
            0
        }) + (if has_bit(b, 7) {
            128int
        } else {
            0
        }),
{
    assert(b == (b >> 0) % 2 + 2 * ((b >> 1) % 2) + 4 * ((b >> 2) % 2) + 8 * ((b >> 3) % 2) + 16 * ((b
        >> 4) % 2) + 32 * ((b >> 5) % 2) + 64 * ((b >> 6) % 2) + 128 * ((b >> 7) % 2))
        by (bit_vector);
}

/// Two bytes are the remainder and the quotient of their number by 256.
pub proof fn lemma_two_bytes(lo: u8, hi: u8)
    ensures
        le_u16(lo, hi) % 256 == lo,
        le_u16(lo, hi) / 256 == hi,
{
}

/// In two's complement the bytes give the same remainders, and a number of 16 bits with
/// its sign; it is negative exactly when the high byte has its top bit.
pub proof fn lemma_two_signed_bytes(lo: u8, hi: u8)
    ensures
        le_i16(lo, hi) % 256 == lo,
        (le_i16(lo, hi) / 256) % 256 == hi,
        -32768 <= le_i16(lo, hi) <= 32767,
        le_i16(lo, hi) < 0 <==> hi >= 128,
{
}

/// Four bytes are the digits of their number to the base 256, the lowest first.
pub proof fn lemma_four_bytes(b0: u8, b1: u8, b2: u8, b3: u8)
    ensures
        le_u32(b0, b1, b2, b3) % 256 == b0,
        (le_u32(b0, b1, b2, b3) / 256) % 256 == b1,
        (le_u32(b0, b1, b2, b3) / 65536) % 256 == b2,
        le_u32(b0, b1, b2, b3) / 16777216 == b3,
{
}

/// `n` where the condition holds, else nothing.
pub open spec fn weight(condition: bool, n: int) -> int {
    if condition {
        n
    } else {
        0
    }
}

/// Parts of a byte are the sums of the powers of two of their bits.
pub proof fn lemma_bits_make_the_parts(b: u8)
    ensures
        b % 2 == weight(has_bit(b, 0), 1),
        b % 4 == weight(has_bit(b, 0), 1) + weight(has_bit(b, 1), 2),
        (b / 2) % 4 == weight(has_bit(b, 1), 1) + weight(has_bit(b, 2), 2),
        b - b % 16 == weight(has_bit(b, 4), 16) + weight(has_bit(b, 5), 32) + weight(
            has_bit(b, 6),
            64,
        ) + weight(has_bit(b, 7), 128),
{
    assert(b % 2 == (b >> 0) % 2) by (bit_vector);
    assert(b % 4 == (b >> 0) % 2 + 2 * ((b >> 1) % 2)) by (bit_vector);
    assert((b / 2) % 4 == (b >> 1) % 2 + 2 * ((b >> 2) % 2)) by (bit_vector);
    assert(b - b % 16 == 16 * ((b >> 4) % 2) + 32 * ((b >> 5) % 2) + 64 * ((b >> 6) % 2) + 128 * ((b
        >> 7) % 2)) by (bit_vector);
}

} // verus!
