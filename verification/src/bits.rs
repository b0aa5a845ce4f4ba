//! Facts about masks and shifts, as arithmetic on the values.
use vstd::prelude::*;

verus! {

/// Masks, shifts and the complement of a byte, as arithmetic.
pub proof fn lemma_u8_bits(x: u8)
    by (bit_vector)
    ensures
        x & 0x01 == x % 2,
        x & 0x03 == x % 4,
        x & 0x07 == x % 8,
        x & 0x0F == x % 16,
        x & 0x1F == x % 32,
        x & 0x7F == x % 128,
        x & 0xF0 == (x / 16) * 16,
        x & 0xFE == (x / 2) * 2,
        (x & 0x38) >> 3u8 == (x / 8) % 8,
        (x & 0x30) >> 4u8 == (x / 16) % 4,
        (x & 0x18) >> 3u8 == (x / 8) % 4,
        (x & 0x0C) >> 2u8 == (x / 4) % 4,
        (x & 0xC0) >> 6u8 == (x / 64) % 4,
        (x & 0x08) >> 3u8 == (x / 8) % 2,
        (x & 0x38) as int == ((x / 8) % 8) * 8,
        (x & 0x80) >> 7u8 == (if x >= 0x80 { 1u8 } else { 0u8 }),
        (x & 0x80 == 0) == (x < 0x80),
        (x & 0x80 != 0) == (x >= 0x80),
        (x & 0x01 != 0) == (x % 2 == 1),
        x >> 1u8 == x / 2,
        ((x >> 4u8) | (x << 4u8)) as int == (x as int % 16) * 16 + x as int / 16,
        (((x as i8) >> 1u8) as u8) as int == x as int / 2 + (if x >= 0x80 { 128int } else { 0 }),
        !x == 255 - x,
        (x & 0x9F) & 0x40 == 0,
        x & !(0x1u8 << 6u8) == x & 0xBF,
        (x & 0xBF) & 0x40 == 0,
        x & 0x40 == 0 ==> x < 0xFF,
        ((x as u16) << 8u16) == x as int * 256,
        x < 32 ==> ((x << 3u8) | (x >> 2u8)) == x * 8 + x / 4,
        (x | 0x04) % 4 == x % 4,
        (x & !0x04u8) % 4 == x % 4,
        x < 16 ==> x & 0x10 == 0,
        x >= 240 ==> x & 0x10 != 0,
        ((x & (1u8 << 0u8)) != 0u8) == ((x / 1) % 2 == 1),
        ((x & (1u8 << 1u8)) != 0u8) == ((x / 2) % 2 == 1),
        ((x & (1u8 << 2u8)) != 0u8) == ((x / 4) % 2 == 1),
        ((x & (1u8 << 3u8)) != 0u8) == ((x / 8) % 2 == 1),
        ((x & (1u8 << 4u8)) != 0u8) == ((x / 16) % 2 == 1),
        ((x & (1u8 << 5u8)) != 0u8) == ((x / 32) % 2 == 1),
        ((x & (1u8 << 6u8)) != 0u8) == ((x / 64) % 2 == 1),
        ((x & (1u8 << 7u8)) != 0u8) == ((x / 128) % 2 == 1),
        (0u8 | 0x6u8) == 0x6u8 && (0u8 | 0x60u8) == 0x60u8 && (0x6u8 | 0x60u8) == 0x66u8,
        0xFFu8 & 0x30 != 0,
        0u8 & 0x40 == 0,
{
}

/// Two bytes combined by masks and shifts, as arithmetic.
pub proof fn lemma_u8_pair_bits(x: u8, y: u8)
    by (bit_vector)
    ensures
        (x | y) & !y == x & !y,
        y != 0 ==> (x | y) & y != 0,
        ((x & 0xCF) | (y & 0x30)) & 0x30 == y & 0x30,
        ((x & 0xF0) | (y & 0x0F)) & 0x30 == x & 0x30,
        ((x & 0xF0) | 0x0F) & 0x30 == x & 0x30,
        (x & 0x80) | (y & 0x7F) == (x / 128) * 128 + y % 128,
        y <= 1 ==> ((x >> 1u8) | (y << 7u8)) as int == x as int / 2 + y * 128,
        y < 4 ==> (x & !0x03u8) | y == (x / 4) * 4 + y,
        y < 4 ==> ((x & !0x03u8) | y) & 0x78 == x & 0x78,
        (((y & 0x78) | (x & 0x7)) & 0x7F) % 4 == x % 4,
        x <= 1 && y <= 1 ==> (x << 1u8) | y == x * 2 + y,
        ((y & 0x03) << 3u8) | ((x & 0xE0) >> 5u8) == (y % 4) * 8 + x / 32,
        ((y & 0x03) << 3u8) | ((x & 0xE0) >> 5u8) < 32,
        (y & 0x7C) >> 2u8 == (y / 4) % 32,
{
}

/// A byte shifted left with a bit shifted in.
pub proof fn lemma_u8_shift_in(x: u8, y: u8)
    by (bit_vector)
    ensures
        y <= 1 ==> ((x << 1u8) | y) as int == (x as int * 2) % 256 + y,
        (x << 1u8) as int == (x as int * 2) % 256,
{
}

/// Masks and shifts of a 16-bit value, as arithmetic.
pub proof fn lemma_u16_bits(x: u16)
    by (bit_vector)
    ensures
        x & 0xFF == x % 256,
        x >> 8u16 == x / 256,
        x & 0xF == x % 16,
        x & 0xFFF == x % 0x1000,
        x & 0xFFF0 == (x / 16) * 16,
        (x & 0x1FF0) | 0x8000 == 0x8000 + (x % 0x2000 / 16) * 16,
        (0xFE00u16 | (x & 0x00FF)) == 0xFE00 + x % 256,
{
}

/// A word put together from bytes, or with one byte replaced.
pub proof fn lemma_word_bits(a: u16, msb: u8, lsb: u8)
    by (bit_vector)
    ensures
        (msb as u16) << 8u16 | (lsb as u16) == msb as int * 256 + lsb as int,
        (a & 0x00FF) | ((msb as u16) << 8u16) == msb as int * 256 + a as int % 256,
        (a & 0xFF00) | (lsb as u16) == (a as int / 256) * 256 + lsb as int,
{
}

/// The lowest bit of a `usize`.
pub proof fn lemma_usize_low_bit(x: usize)
    by (bit_vector)
    ensures
        x & 0b1 == x % 2,
        (0xFE | (x & 0b1)) == if x % 2 == 0 { 0xFEusize } else { 0xFFusize },
{
}

} // verus!
