use vstd::prelude::*;

verus! {

pub type Byte = u8;

pub type Word = u16;

pub type Sbyte = i8;

/// Machine-Cycles (m)
pub type Cycles = u64;

/// The word whose most significant byte is `msb` and whose least significant
/// byte is `lsb`.
pub open spec fn word_from_bytes(msb: u8, lsb: u8) -> u16 {
    (msb as int * 256 + lsb as int) as u16
}

/// The most significant byte of a word.
pub open spec fn word_msb(value: u16) -> u8 {
    (value / 256) as u8
}

/// The least significant byte of a word.
pub open spec fn word_lsb(value: u16) -> u8 {
    (value % 256) as u8
}

/// Whether bit `index` of `value` is set.
pub open spec fn bit_set(value: u8, index: int) -> bool {
    (value as int / vstd::arithmetic::power2::pow2(index as nat) as int) % 2 == 1
}

/// Number of binary digits of `value` (0 for 0).
pub open spec fn bits_needed(value: nat) -> nat
    decreases value,
{
    if value == 0 {
        0
    } else {
        1 + bits_needed(value / 2)
    }
}

/// Create a `Word` from two `Byte`s with the first argument
/// as the most significant and the second argument as the
/// least significant
pub fn compose_word(msb: Byte, lsb: Byte) -> (word: Word)
    ensures
        word == msb as int * 256 + lsb as int,
        word == word_from_bytes(msb, lsb),
{
    let word = (msb as u16) << 8u16 | (lsb as u16);
    assert(word == msb as int * 256 + lsb as int) by {
        crate::bits::lemma_word_bits(0, msb, lsb);
    }
    word
}

/// Extract the `Byte`s from a `Word` and return a tuple with
/// the most significant `Byte` as the first item and the
/// least significant `Byte` as the second
pub fn decompose_word(value: Word) -> (bytes: (Byte, Byte))
    ensures
        bytes.0 == value / 256,
        bytes.1 == value % 256,
        bytes.0 as int * 256 + bytes.1 as int == value,
{
    let lsb = (value & 0xFF) as u8;
    let msb = (value >> 8u16) as u8;
    assert(value & 0xFF == value % 256) by {
        crate::bits::lemma_u16_bits(value);
    }
    assert(value >> 8u16 == value / 256) by {
        crate::bits::lemma_u16_bits(value);
    }
    (msb, lsb)
}

/// The value (0 or 1) of bit `index` of `value`.
pub fn bit_value(value: Byte, index: Byte) -> (bit: Byte)
    requires
        index < 8,
    ensures
        bit == (if bit_set(value, index as int) { 1u8 } else { 0u8 }),
{
    let set = (value & (1u8 << index)) != 0u8;
    proof {
        lemma_bit_test(value, index);
    }
    if set {
        0x1
    } else {
        0x0
    }
}

/// Testing a byte against the mask `1 << index` tells whether bit `index` is set.
pub proof fn lemma_bit_test(value: u8, index: u8)
    requires
        index < 8,
    ensures
        ((value & (1u8 << index)) != 0u8) == bit_set(value, index as int),
{
    let shifted = value >> index;
    assert(((value & (1u8 << index)) != 0u8) == (shifted & 1u8 == 1u8)) by (bit_vector)
        requires
            index < 8,
            shifted == value >> index,
    ;
    assert((shifted & 1u8 == 1u8) == (shifted % 2 == 1)) by (bit_vector);
    vstd::bits::lemma_u8_shr_is_div(value, index);
}

/// Calculate the minimum number of bits required to store a value
pub fn min_number_of_bits(value: Byte) -> (count: Byte)
    ensures
        count == bits_needed(value as nat),
        count <= 8,
{
    let mut value = value;
    let mut count: u8 = 0;
    let ghost original = value as nat;
    proof {
        lemma_bits_needed_bound(value);
    }
    while value > 0
        invariant
            bits_needed(original) == count + bits_needed(value as nat),
            count + bits_needed(value as nat) <= 8,
        decreases value,
    {
        proof {
            lemma_bits_needed_bound(value);
        }
        assert(value >> 1u8 == value / 2) by {
            crate::bits::lemma_u8_bits(value);
        }
        count += 1;
        value >>= 1u8;
    }
    count
}

/// A byte never needs more than eight bits, and one more halving step
/// accounts for one more bit.
pub proof fn lemma_bits_needed_bound(value: u8)
    ensures
        bits_needed(value as nat) <= 8,
        value > 0 ==> bits_needed(value as nat) == 1 + bits_needed((value / 2) as nat),
{
    vstd::arithmetic::power2::lemma2_to64();
    lemma_bits_needed_below_pow2(value as nat, 8);
}

/// A value below `2^k` needs at most `k` bits.
pub proof fn lemma_bits_needed_below_pow2(v: nat, k: nat)
    requires
        v < vstd::arithmetic::power2::pow2(k),
    ensures
        bits_needed(v) <= k,
    decreases k,
{
    if k > 0 && v > 0 {
        vstd::arithmetic::power2::lemma_pow2_unfold(k);
        lemma_bits_needed_below_pow2(v / 2, (k - 1) as nat);
    } else if k == 0 {
        vstd::arithmetic::power2::lemma2_to64();
    }
}

/// `bits_needed` is the least number of bits that holds the value:
/// `v < 2^n`, and for a positive value `2^(n-1) <= v`.
pub proof fn lemma_bits_needed_minimal(v: nat)
    ensures
        v < vstd::arithmetic::power2::pow2(bits_needed(v)),
        v > 0 ==> vstd::arithmetic::power2::pow2((bits_needed(v) - 1) as nat) <= v,
    decreases v,
{
    vstd::arithmetic::power2::lemma2_to64();
    if v > 0 {
        lemma_bits_needed_minimal(v / 2);
        vstd::arithmetic::power2::lemma_pow2_unfold(bits_needed(v));
        if v / 2 > 0 {
            vstd::arithmetic::power2::lemma_pow2_unfold((bits_needed(v) - 1) as nat);
        }
    }
}

/// Splitting a word into its bytes and putting them back together gives the
/// word; putting two bytes together and splitting them gives the bytes.
pub proof fn lemma_word_bytes_round_trip(value: u16, msb: u8, lsb: u8)
    ensures
        word_from_bytes(word_msb(value), word_lsb(value)) == value,
        word_msb(word_from_bytes(msb, lsb)) == msb,
        word_lsb(word_from_bytes(msb, lsb)) == lsb,
{
}

} // verus!
