use vstd::prelude::*;

use circular_buffer::CircularBuffer;

use crate::debug::{CpuDebug, ExecutedOpcode};
use crate::memory::{event_data, event_state, BusEvent, SystemBus};
use crate::utils::{bit_set, lemma_bit_test, word_from_bytes, word_lsb, word_msb};
use crate::{EmulationFault, ExecutionState};

verus! {

/// The Z, N, H and C flags.
#[derive(Debug, Clone, Copy, Eq, PartialEq, Structural)]
pub struct FlagRegister {
    pub zero: bool,
    pub negative: bool,
    pub half_carry: bool,
    pub carry: bool,
}

/// The flags as stored in F: Z in bit 7, N in bit 6, H in bit 5, C in bit 4.
pub open spec fn flags_byte(f: FlagRegister) -> u8 {
    ((if f.zero { 0x80int } else { 0 }) + (if f.negative { 0x40int } else { 0 }) + (if f.half_carry {
        0x20int
    } else {
        0
    }) + (if f.carry { 0x10int } else { 0 })) as u8
}

/// The flags stored in a byte; the lower nibble is ignored.
pub open spec fn flags_of(value: u8) -> FlagRegister {
    FlagRegister {
        zero: value & 0x80 != 0,
        negative: value & 0x40 != 0,
        half_carry: value & 0x20 != 0,
        carry: value & 0x10 != 0,
    }
}

impl FlagRegister {
    pub fn from_byte(value: u8) -> (flags: Self)
        ensures
            flags == flags_of(value),
    {
        let zero = (value & 0x80) != 0;
        let negative = (value & 0x40) != 0;
        let half_carry = (value & 0x20) != 0;
        let carry = (value & 0x10) != 0;
        FlagRegister { zero, negative, half_carry, carry }
    }

    pub fn to_byte(&self) -> (value: u8)
        ensures
            value == flags_byte(*self),
    {
        let z = self.zero;
        let n = self.negative;
        let h = self.half_carry;
        let c = self.carry;
        let zero_bit: u8 = if z { 0x80 } else { 0x00 };
        let negative_bit: u8 = if n { 0x40 } else { 0x00 };
        let half_carry_bit: u8 = if h { 0x20 } else { 0x00 };
        let carry_bit: u8 = if c { 0x10 } else { 0x00 };
        let value = zero_bit | negative_bit | half_carry_bit | carry_bit;
        assert(value == zero_bit + negative_bit + half_carry_bit + carry_bit) by (bit_vector)
            requires
                value == zero_bit | negative_bit | half_carry_bit | carry_bit,
                zero_bit == 0x80 || zero_bit == 0,
                negative_bit == 0x40 || negative_bit == 0,
                half_carry_bit == 0x20 || half_carry_bit == 0,
                carry_bit == 0x10 || carry_bit == 0,
        ;
        value
    }
}

impl From<u8> for FlagRegister {
    fn from(value: u8) -> (flags: Self) {
        FlagRegister::from_byte(value)
    }
}

impl vstd::std_specs::convert::FromSpecImpl<u8> for FlagRegister {
    open spec fn obeys_from_spec() -> bool {
        true
    }

    open spec fn from_spec(value: u8) -> FlagRegister {
        flags_of(value)
    }
}

impl From<FlagRegister> for u8 {
    fn from(register: FlagRegister) -> (value: u8) {
        register.to_byte()
    }
}

impl vstd::std_specs::convert::FromSpecImpl<FlagRegister> for u8 {
    open spec fn obeys_from_spec() -> bool {
        true
    }

    open spec fn from_spec(register: FlagRegister) -> u8 {
        flags_byte(register)
    }
}

/// The value of a flag as a digit.
pub open spec fn flag_bit(flag: bool) -> int {
    if flag { 1 } else { 0 }
}

/// `res` differs from `r` at most in A and F.
pub open spec fn only_a_and_f_changed(r: Registers, res: Registers) -> bool {
    Registers { a: r.a, f: r.f, ..res } == r
}

/// `r` with the carry flag set to `carry`.
pub open spec fn with_carry(r: Registers, carry: bool) -> Registers {
    Registers { f: FlagRegister { carry, ..r.f }, ..r }
}

/// The arithmetic of the accumulator operations, as whole numbers:
/// ADD and ADC give `A + operand (+ carry)` as the new A plus 256 times the
/// new carry; SUB and SBC give `A - operand (- carry)` as the new A less 256
/// times the new carry (the borrow); Z is set exactly when the new A is 0,
/// N exactly for the subtractions; CP sets the flags of SUB and keeps A; no
/// register but A and F changes.
#[verifier::spinoff_prover]
pub proof fn lemma_alu_arithmetic(r: Registers, v: u8)
    ensures
        alu(0, r, v).a + 256 * flag_bit(alu(0, r, v).f.carry) == r.a + v,
        alu(1, r, v).a + 256 * flag_bit(alu(1, r, v).f.carry) == r.a + v + flag_bit(r.f.carry),
        alu(2, r, v).a - 256 * flag_bit(alu(2, r, v).f.carry) == r.a - v,
        alu(3, r, v).a - 256 * flag_bit(alu(3, r, v).f.carry) == r.a - v - flag_bit(r.f.carry),
        alu(0, r, v).f.zero == (alu(0, r, v).a == 0) && !alu(0, r, v).f.negative,
        alu(1, r, v).f.zero == (alu(1, r, v).a == 0) && !alu(1, r, v).f.negative,
        alu(2, r, v).f.zero == (alu(2, r, v).a == 0) && alu(2, r, v).f.negative,
        alu(3, r, v).f.zero == (alu(3, r, v).a == 0) && alu(3, r, v).f.negative,
        only_a_and_f_changed(r, alu(0, r, v)),
        only_a_and_f_changed(r, alu(1, r, v)),
        only_a_and_f_changed(r, alu(2, r, v)),
        only_a_and_f_changed(r, alu(3, r, v)),
        alu(7, r, v).a == r.a,
        alu(7, r, v).f == alu(2, r, v).f,
        only_a_and_f_changed(r, alu(7, r, v)),
{
}

/// AND, XOR and OR work bit by bit: bit `k` of the new A is set exactly
/// when it is set in both, in one of, or in either of A and the operand;
/// Z is set exactly when the new A is 0; H is set by AND alone; N and C are
/// clear; no register but A and F changes.
pub proof fn lemma_alu_bitwise(r: Registers, v: u8, k: u8)
    requires
        k < 8,
    ensures
        bit_set(alu(4, r, v).a, k as int) == (bit_set(r.a, k as int) && bit_set(v, k as int)),
        bit_set(alu(5, r, v).a, k as int) == (bit_set(r.a, k as int) != bit_set(v, k as int)),
        bit_set(alu(6, r, v).a, k as int) == (bit_set(r.a, k as int) || bit_set(v, k as int)),
        alu(4, r, v).f == (FlagRegister { zero: alu(4, r, v).a == 0, negative: false, half_carry: true, carry: false }),
        alu(5, r, v).f == (FlagRegister { zero: alu(5, r, v).a == 0, negative: false, half_carry: false, carry: false }),
        alu(6, r, v).f == (FlagRegister { zero: alu(6, r, v).a == 0, negative: false, half_carry: false, carry: false }),
        only_a_and_f_changed(r, alu(4, r, v)),
        only_a_and_f_changed(r, alu(5, r, v)),
        only_a_and_f_changed(r, alu(6, r, v)),
{
    let a = r.a;
    let mask = 1u8 << k;
    lemma_bit_test(a, k);
    lemma_bit_test(v, k);
    lemma_bit_test(a & v, k);
    lemma_bit_test(a ^ v, k);
    lemma_bit_test(a | v, k);
    assert(((a & v) & mask != 0) == (a & mask != 0 && v & mask != 0)
        && ((a ^ v) & mask != 0) == ((a & mask != 0) != (v & mask != 0))
        && ((a | v) & mask != 0) == (a & mask != 0 || v & mask != 0)) by (bit_vector)
        requires
            k < 8,
            mask == 1u8 << k,
    ;
}

/// Adding bytes: the low nibble of the sum and the carry out of bit 3.
proof fn lemma_nibble_sum(a: int, w: int, c: int, res: int, carry: int)
    requires
        0 <= a < 256,
        0 <= w < 256,
        0 <= c <= 1,
        0 <= carry <= 1,
        0 <= res < 256,
        res + 256 * carry == a + w + c,
    ensures
        res % 16 + 16 * (if a % 16 + w % 16 + c > 15 { 1int } else { 0 }) == a % 16 + w % 16 + c,
{
    let q = res / 16;
    assert(res == 16 * q + res % 16);
    assert(a == 16 * (a / 16) + a % 16);
    assert(w == 16 * (w / 16) + w % 16);
    let d = a % 16 + w % 16 + c - res % 16;
    assert(d == 16 * (q + 16 * carry - a / 16 - w / 16));
    assert(-16 < d < 32);
    assert(d == 0 || d == 16) by (nonlinear_arith)
        requires
            d == 16 * (q + 16 * carry - a / 16 - w / 16),
            -16 < d < 32,
    ;
}

/// Subtracting bytes: the low nibble of the difference and the borrow into
/// bit 3.
proof fn lemma_nibble_difference(a: int, w: int, c: int, res: int, borrow: int)
    requires
        0 <= a < 256,
        0 <= w < 256,
        0 <= c <= 1,
        0 <= borrow <= 1,
        0 <= res < 256,
        res - 256 * borrow == a - w - c,
    ensures
        res % 16 - 16 * (if a % 16 < w % 16 + c { 1int } else { 0 }) == a % 16 - w % 16 - c,
{
    let q = res / 16;
    assert(res == 16 * q + res % 16);
    assert(a == 16 * (a / 16) + a % 16);
    assert(w == 16 * (w / 16) + w % 16);
    let d = res % 16 - (a % 16 - w % 16 - c);
    assert(d == 16 * (16 * borrow + a / 16 - w / 16 - q));
    assert(-16 < d < 32);
    assert(d == 0 || d == 16) by (nonlinear_arith)
        requires
            d == 16 * (16 * borrow + a / 16 - w / 16 - q),
            -16 < d < 32,
    ;
}

/// The half carry of the accumulator arithmetic: the low nibbles of A and
/// the operand (and the carry in) add up, or subtract, to the low nibble of
/// the new A plus (or less) 16 times the new H flag.
#[verifier::spinoff_prover]
pub proof fn lemma_alu_half_carry(r: Registers, v: u8)
    ensures
        alu(0, r, v).a % 16 + 16 * flag_bit(alu(0, r, v).f.half_carry) == r.a % 16 + v % 16,
        alu(1, r, v).a % 16 + 16 * flag_bit(alu(1, r, v).f.half_carry) == r.a % 16 + v % 16
            + flag_bit(r.f.carry),
        alu(2, r, v).a % 16 - 16 * flag_bit(alu(2, r, v).f.half_carry) == r.a % 16 - v % 16,
        alu(3, r, v).a % 16 - 16 * flag_bit(alu(3, r, v).f.half_carry) == r.a % 16 - v % 16
            - flag_bit(r.f.carry),
{
    let c = flag_bit(r.f.carry);
    lemma_alu_arithmetic(r, v);
    lemma_nibble_sum(r.a as int, v as int, 0, alu(0, r, v).a as int, flag_bit(alu(0, r, v).f.carry));
    lemma_nibble_sum(r.a as int, v as int, c, alu(1, r, v).a as int, flag_bit(alu(1, r, v).f.carry));
    lemma_nibble_difference(r.a as int, v as int, 0, alu(2, r, v).a as int, flag_bit(alu(2, r, v).f.carry));
    lemma_nibble_difference(r.a as int, v as int, c, alu(3, r, v).a as int, flag_bit(alu(3, r, v).f.carry));
}

/// SBC takes the carry in: with the carry clear it is SUB, and with the carry
/// set it gives one less than with the carry clear.
#[verifier::spinoff_prover]
pub proof fn lemma_sbc_takes_carry_in(r: Registers, v: u8)
    ensures
        alu(3, with_carry(r, false), v) == alu(2, with_carry(r, false), v),
        (alu(3, with_carry(r, true), v).a + 1) % 256 == alu(3, with_carry(r, false), v).a as int,
{
}

/// Storing flags in a byte and reading them back gives the same flags.
pub proof fn lemma_flags_round_trip(f: FlagRegister)
    ensures
        flags_of(flags_byte(f)) == f,
{
    let z = f.zero;
    let n = f.negative;
    let h = f.half_carry;
    let c = f.carry;
    let zb: u8 = if z { 0x80 } else { 0 };
    let nb: u8 = if n { 0x40 } else { 0 };
    let hb: u8 = if h { 0x20 } else { 0 };
    let cb: u8 = if c { 0x10 } else { 0 };
    let v = flags_byte(f);
    assert(v == zb + nb + hb + cb);
    assert(((v & 0x80 != 0) == (zb == 0x80)) && ((v & 0x40 != 0) == (nb == 0x40)) && ((v & 0x20
        != 0) == (hb == 0x20)) && ((v & 0x10 != 0) == (cb == 0x10))) by (bit_vector)
        requires
            v == zb + nb + hb + cb,
            zb == 0x80 || zb == 0,
            nb == 0x40 || nb == 0,
            hb == 0x20 || hb == 0,
            cb == 0x10 || cb == 0,
    ;
}

/// The CPU registers.
#[derive(Clone, Copy, Debug, Eq, PartialEq, Structural)]
pub struct Registers {
    pub a: u8,
    pub f: FlagRegister,
    pub b: u8,
    pub c: u8,
    pub d: u8,
    pub e: u8,
    pub h: u8,
    pub l: u8,
    pub sp: u16,
    pub pc: u16,
}

impl Registers {
    pub fn new() -> (regs: Self)
        ensures
            regs == (Registers {
                a: 0,
                f: flags_of(0),
                b: 0,
                c: 0,
                d: 0,
                e: 0,
                h: 0,
                l: 0,
                sp: 0,
                pc: 0,
            }),
    {
        Registers {
            a: 0,
            f: FlagRegister::from_byte(0),
            b: 0,
            c: 0,
            d: 0,
            e: 0,
            h: 0,
            l: 0,
            sp: 0,
            pc: 0,
        }
    }

    pub fn get_bc(&self) -> (value: u16)
        ensures
            value == word_from_bytes(self.b, self.c),
    {
        crate::utils::compose_word(self.b, self.c)
    }

    pub fn set_bc(&mut self, value: u16)
        ensures
            *final(self) == (Registers { b: word_msb(value), c: word_lsb(value), ..*old(self) }),
    {
        let (msb, lsb) = crate::utils::decompose_word(value);
        self.b = msb;
        self.c = lsb;
    }

    pub fn get_de(&self) -> (value: u16)
        ensures
            value == word_from_bytes(self.d, self.e),
    {
        crate::utils::compose_word(self.d, self.e)
    }

    pub fn set_de(&mut self, value: u16)
        ensures
            *final(self) == (Registers { d: word_msb(value), e: word_lsb(value), ..*old(self) }),
    {
        let (msb, lsb) = crate::utils::decompose_word(value);
        self.d = msb;
        self.e = lsb;
    }

    pub fn get_hl(&self) -> (value: u16)
        ensures
            value == word_from_bytes(self.h, self.l),
    {
        crate::utils::compose_word(self.h, self.l)
    }

    pub fn set_hl(&mut self, value: u16)
        ensures
            *final(self) == (Registers { h: word_msb(value), l: word_lsb(value), ..*old(self) }),
    {
        let (msb, lsb) = crate::utils::decompose_word(value);
        self.h = msb;
        self.l = lsb;
    }

    pub fn get_af(&self) -> (value: u16)
        ensures
            value == word_from_bytes(self.a, flags_byte(self.f)),
    {
        crate::utils::compose_word(self.a, self.f.to_byte())
    }

    /// The lower nibble of the flag byte is not stored.
    pub fn set_af(&mut self, value: u16)
        ensures
            *final(self) == (Registers {
                a: word_msb(value),
                f: flags_of(word_lsb(value)),
                ..*old(self)
            }),
    {
        let (msb, lsb) = crate::utils::decompose_word(value);
        self.a = msb;
        self.f = FlagRegister::from_byte(lsb);
    }
}

// Register decoding for opcodes ----------------------------------------------------------------

/// The 8-bit register that three opcode bits name (6, (HL), is not a register).
pub open spec fn reg8(r: Registers, index: u8) -> u8 {
    if index == 0 {
        r.b
    } else if index == 1 {
        r.c
    } else if index == 2 {
        r.d
    } else if index == 3 {
        r.e
    } else if index == 4 {
        r.h
    } else if index == 5 {
        r.l
    } else {
        r.a
    }
}

pub open spec fn set_reg8(r: Registers, index: u8, v: u8) -> Registers {
    if index == 0 {
        Registers { b: v, ..r }
    } else if index == 1 {
        Registers { c: v, ..r }
    } else if index == 2 {
        Registers { d: v, ..r }
    } else if index == 3 {
        Registers { e: v, ..r }
    } else if index == 4 {
        Registers { h: v, ..r }
    } else if index == 5 {
        Registers { l: v, ..r }
    } else {
        Registers { a: v, ..r }
    }
}

pub open spec fn hl(r: Registers) -> u16 {
    word_from_bytes(r.h, r.l)
}

pub open spec fn with_hl(r: Registers, v: u16) -> Registers {
    Registers { h: word_msb(v), l: word_lsb(v), ..r }
}

/// The 16-bit registers of group 1 (BC, DE, HL, SP).
pub open spec fn group1(r: Registers, bits: u8) -> u16 {
    if bits == 0 {
        word_from_bytes(r.b, r.c)
    } else if bits == 1 {
        word_from_bytes(r.d, r.e)
    } else if bits == 2 {
        hl(r)
    } else {
        r.sp
    }
}

pub open spec fn set_group1(r: Registers, bits: u8, v: u16) -> Registers {
    if bits == 0 {
        Registers { b: word_msb(v), c: word_lsb(v), ..r }
    } else if bits == 1 {
        Registers { d: word_msb(v), e: word_lsb(v), ..r }
    } else if bits == 2 {
        with_hl(r, v)
    } else {
        Registers { sp: v, ..r }
    }
}

/// The 16-bit registers of group 2 (BC, DE, HL+, HL-) used as addresses.
pub open spec fn group2(r: Registers, bits: u8) -> u16 {
    if bits == 0 {
        word_from_bytes(r.b, r.c)
    } else if bits == 1 {
        word_from_bytes(r.d, r.e)
    } else {
        hl(r)
    }
}

/// The 16-bit registers of group 3 (BC, DE, HL, AF).
pub open spec fn group3(r: Registers, bits: u8) -> u16 {
    if bits == 3 {
        word_from_bytes(r.a, flags_byte(r.f))
    } else {
        group1(r, bits)
    }
}

pub open spec fn set_group3(r: Registers, bits: u8, v: u16) -> Registers {
    if bits == 3 {
        Registers { a: word_msb(v), f: flags_of(word_lsb(v)), ..r }
    } else {
        set_group1(r, bits, v)
    }
}

pub open spec fn wrap16(x: int) -> u16 {
    (((x % 0x10000) + 0x10000) % 0x10000) as u16
}

pub open spec fn wrap8(x: int) -> u8 {
    (((x % 0x100) + 0x100) % 0x100) as u8
}

/// A 16-bit register pair named by opcode bits, or SP.
#[derive(Debug, Copy, Clone, PartialEq, Eq, Structural)]
pub enum WordRegister {
    /// A pair of 8-bit registers: B-C, D-E or H-L
    Pair { upper: u8, lower: u8 },
    /// The stack pointer
    Single,
    /// For the AF register pair
    AccumAndFlag,
}

/// The register a `WordRegister` names: 0 BC, 1 DE, 2 HL, 3 SP, 4 AF.
pub open spec fn word_register_id(w: WordRegister) -> int {
    match w {
        WordRegister::Pair { upper, .. } => if upper == 0 {
            0
        } else if upper == 2 {
            1
        } else {
            2
        },
        WordRegister::Single => 3,
        WordRegister::AccumAndFlag => 4,
    }
}

pub open spec fn word_register_wf(w: WordRegister) -> bool {
    match w {
        WordRegister::Pair { upper, lower } => (upper == 0 && lower == 1) || (upper == 2 && lower
            == 3) || (upper == 4 && lower == 5),
        _ => true,
    }
}

pub open spec fn word_get(r: Registers, w: WordRegister) -> u16 {
    let id = word_register_id(w);
    if id == 4 {
        group3(r, 3)
    } else {
        group1(r, id as u8)
    }
}

pub open spec fn word_set(r: Registers, w: WordRegister, v: u16) -> Registers {
    let id = word_register_id(w);
    if id == 4 {
        set_group3(r, 3, v)
    } else {
        set_group1(r, id as u8, v)
    }
}

impl WordRegister {
    pub fn for_group1(bits: u8) -> (w: Self)
        requires
            bits < 4,
        ensures
            word_register_wf(w),
            word_register_id(w) == bits,
    {
        if bits == 0 {
            WordRegister::Pair { upper: 0, lower: 1 }
        } else if bits == 1 {
            WordRegister::Pair { upper: 2, lower: 3 }
        } else if bits == 2 {
            WordRegister::Pair { upper: 4, lower: 5 }
        } else {
            WordRegister::Single
        }
    }

    pub fn for_group2(bits: u8) -> (w: Self)
        requires
            bits < 4,
        ensures
            word_register_wf(w),
            word_register_id(w) == if bits == 3 { 2 } else { bits as int },
    {
        if bits == 0 {
            WordRegister::Pair { upper: 0, lower: 1 }
        } else if bits == 1 {
            WordRegister::Pair { upper: 2, lower: 3 }
        } else {
            WordRegister::Pair { upper: 4, lower: 5 }
        }
    }

    pub fn for_group3(bits: u8) -> (w: Self)
        requires
            bits < 4,
        ensures
            word_register_wf(w),
            word_register_id(w) == if bits == 3 { 4 } else { bits as int },
    {
        if bits == 0 {
            WordRegister::Pair { upper: 0, lower: 1 }
        } else if bits == 1 {
            WordRegister::Pair { upper: 2, lower: 3 }
        } else if bits == 2 {
            WordRegister::Pair { upper: 4, lower: 5 }
        } else {
            WordRegister::AccumAndFlag
        }
    }

    pub fn get(&self, regs: &Registers) -> (value: u16)
        requires
            word_register_wf(*self),
        ensures
            value == word_get(*regs, *self),
    {
        match self {
            WordRegister::Pair { upper, .. } => if *upper == 0 {
                regs.get_bc()
            } else if *upper == 2 {
                regs.get_de()
            } else {
                regs.get_hl()
            },
            WordRegister::Single => regs.sp,
            WordRegister::AccumAndFlag => regs.get_af(),
        }
    }

    pub fn set(&self, regs: &mut Registers, value: u16)
        requires
            word_register_wf(*self),
        ensures
            *final(regs) == word_set(*old(regs), *self, value),
    {
        match self {
            WordRegister::Pair { upper, .. } => if *upper == 0 {
                regs.set_bc(value)
            } else if *upper == 2 {
                regs.set_de(value)
            } else {
                regs.set_hl(value)
            },
            WordRegister::Single => regs.sp = value,
            WordRegister::AccumAndFlag => regs.set_af(value),
        }
    }

    /// Increment the register; a pair carries from the lower into the upper
    /// byte.
    pub fn inc(&self, regs: &mut Registers)
        requires
            word_register_wf(*self),
            word_register_id(*self) != 4,
        ensures
            *final(regs) == word_set(*old(regs), *self, wrap16(word_get(*old(regs), *self) + 1)),
    {
        let v = self.get(regs);
        let n = v.wrapping_add(1);
        self.set(regs, n);
    }

    /// Decrement the register; a pair borrows from the upper byte.
    pub fn dec(&self, regs: &mut Registers)
        requires
            word_register_wf(*self),
            word_register_id(*self) != 4,
        ensures
            *final(regs) == word_set(*old(regs), *self, wrap16(word_get(*old(regs), *self) - 1)),
    {
        let v = self.get(regs);
        let n = v.wrapping_sub(1);
        self.set(regs, n);
    }
}

// Arithmetic and logic ----------------------------------------------------------------------------

pub open spec fn with_flags(r: Registers, zero: bool, negative: bool, half_carry: bool, carry: bool) -> Registers {
    Registers { f: FlagRegister { zero, negative, half_carry, carry }, ..r }
}

pub open spec fn carry_in(r: Registers) -> int {
    if r.f.carry { 1 } else { 0 }
}

/// The eight accumulator operations: ADD, ADC, SUB, SBC, AND, XOR, OR, CP.
pub open spec fn alu(kind: u8, r: Registers, v: u8) -> Registers {
    let a = r.a as int;
    let v = v as int;
    let c = carry_in(r);
    if kind == 0 {
        let res = (a + v) % 256;
        with_flags(Registers { a: res as u8, ..r }, res == 0, false, a % 16 + v % 16 > 15, a + v > 255)
    } else if kind == 1 {
        let res = (a + v + c) % 256;
        with_flags(
            Registers { a: res as u8, ..r },
            res == 0,
            false,
            a % 16 + v % 16 + c > 15,
            a + v + c > 255,
        )
    } else if kind == 2 {
        let res = wrap8(a - v);
        with_flags(Registers { a: res, ..r }, res == 0, true, a % 16 < v % 16, a < v)
    } else if kind == 3 {
        let res = wrap8(a - v - c);
        with_flags(Registers { a: res, ..r }, res == 0, true, a % 16 < v % 16 + c, a < v + c)
    } else if kind == 4 {
        let res = r.a & (v as u8);
        with_flags(Registers { a: res, ..r }, res == 0, false, true, false)
    } else if kind == 5 {
        let res = r.a ^ (v as u8);
        with_flags(Registers { a: res, ..r }, res == 0, false, false, false)
    } else if kind == 6 {
        let res = r.a | (v as u8);
        with_flags(Registers { a: res, ..r }, res == 0, false, false, false)
    } else {
        with_flags(r, a == v, true, a % 16 < v % 16, a < v)
    }
}

/// The eight rotate, shift and swap operations (RLC, RRC, RL, RR, SLA, SRA,
/// SWAP, SRL): the result and the registers with the flags set.
pub open spec fn rotate(kind: u8, r: Registers, v: u8) -> (u8, Registers) {
    let x = v as int;
    let c = carry_in(r);
    let (res, carry) = if kind == 0 {
        ((x * 2) % 256 + x / 128, x >= 128)
    } else if kind == 1 {
        (x / 2 + (x % 2) * 128, x % 2 == 1)
    } else if kind == 2 {
        ((x * 2) % 256 + c, x >= 128)
    } else if kind == 3 {
        (x / 2 + c * 128, x % 2 == 1)
    } else if kind == 4 {
        ((x * 2) % 256, x >= 128)
    } else if kind == 5 {
        (x / 2 + (if x >= 128 { 128int } else { 0 }), x % 2 == 1)
    } else if kind == 6 {
        ((x % 16) * 16 + x / 16, false)
    } else {
        (x / 2, x % 2 == 1)
    };
    (res as u8, with_flags(r, res == 0, false, false, carry))
}

/// INC of an 8-bit value: the result and the flags (C unchanged).
pub open spec fn inc8(r: Registers, v: u8) -> (u8, Registers) {
    let res = (v as int + 1) % 256;
    (res as u8, with_flags(r, res == 0, false, v % 16 == 15, r.f.carry))
}

/// DEC of an 8-bit value: the result and the flags (C unchanged).
pub open spec fn dec8(r: Registers, v: u8) -> (u8, Registers) {
    let res = wrap8(v - 1);
    (res, with_flags(r, res == 0, true, v % 16 == 0, r.f.carry))
}

/// The decimal adjustment of A after a BCD addition or subtraction.
pub open spec fn daa(r: Registers) -> Registers {
    let a = r.a as int;
    let low = r.f.half_carry || (!r.f.negative && a % 16 > 9);
    let high = r.f.carry || (!r.f.negative && a > 0x99);
    let correction = (if low { 0x06int } else { 0 }) + (if high { 0x60int } else { 0 });
    let res = if r.f.negative { wrap8(a - correction) } else { wrap8(a + correction) };
    with_flags(Registers { a: res, ..r }, res == 0, r.f.negative, false, r.f.carry || high)
}

/// The accumulator and flag operations RLCA, RRCA, RLA, RRA, DAA, CPL, SCF, CCF.
pub open spec fn flag_op(kind: u8, r: Registers) -> Registers {
    if kind < 4 {
        let (res, r1) = rotate(kind, r, r.a);
        Registers { a: res, f: FlagRegister { zero: false, ..r1.f }, ..r1 }
    } else if kind == 4 {
        daa(r)
    } else if kind == 5 {
        Registers {
            a: (255 - r.a) as u8,
            f: FlagRegister { negative: true, half_carry: true, ..r.f },
            ..r
        }
    } else if kind == 6 {
        Registers { f: FlagRegister { negative: false, half_carry: false, carry: true, ..r.f }, ..r }
    } else {
        Registers {
            f: FlagRegister { negative: false, half_carry: false, carry: !r.f.carry, ..r.f },
            ..r
        }
    }
}

/// ADD HL, r16 (Z unchanged).
pub open spec fn add_hl(r: Registers, v: u16) -> Registers {
    let x = hl(r) as int;
    let y = v as int;
    with_flags(
        with_hl(r, ((x + y) % 0x10000) as u16),
        r.f.zero,
        false,
        x % 0x1000 + y % 0x1000 > 0xFFF,
        x + y > 0xFFFF,
    )
}

/// A signed 8-bit offset extended to 16 bits.
pub open spec fn sign_extend(offset: u8) -> u16 {
    if offset < 128 {
        offset as u16
    } else {
        (offset as int + 0xFF00) as u16
    }
}

/// SP plus a signed offset, and the flags ADD SP,i8 and LD HL,SP+i8 set.
pub open spec fn sp_offset(r: Registers, offset: u8) -> (u16, FlagRegister) {
    let sp = r.sp as int;
    let o = sign_extend(offset) as int;
    (
        ((sp + o) % 0x10000) as u16,
        FlagRegister {
            zero: false,
            negative: false,
            half_carry: sp % 16 + o % 16 > 15,
            carry: sp % 256 + o % 256 > 255,
        },
    )
}

// The opcode history ----------------------------------------------------------------------------

#[verifier::external_type_specification]
#[verifier::external_body]
#[verifier::reject_recursive_types(T)]
pub struct ExCircularBuffer<const N: usize, T>(CircularBuffer<N, T>);

/// The entries of the opcode history, oldest first, each as (pc, opcode,
/// arg1, arg2).
pub uninterp spec fn opcode_history(buffer: CircularBuffer<10, ExecutedOpcode>) -> Seq<(u16, u8, u8, u8)>;

pub open spec fn history_entry(o: ExecutedOpcode) -> (u16, u8, u8, u8) {
    (o.pc, o.opcode, o.arg1, o.arg2)
}

/// A history with one more entry at the back; when it already holds ten, the
/// front entry is dropped.
pub open spec fn history_pushed(h: Seq<(u16, u8, u8, u8)>, entry: (u16, u8, u8, u8)) -> Seq<(u16, u8, u8, u8)> {
    if h.len() >= 10 {
        h.drop_first().push(entry)
    } else {
        h.push(entry)
    }
}

/// `CircularBuffer::new`: an empty buffer.
#[verifier::external_body]
pub(crate) fn history_new() -> (buffer: CircularBuffer<10, ExecutedOpcode>)
    ensures
        opcode_history(buffer) == Seq::<(u16, u8, u8, u8)>::empty(),
{
    CircularBuffer::new()
}

/// `CircularBuffer::push_back`: appends at the back; a full buffer drops its
/// front item.
#[verifier::external_body]
pub(crate) fn history_push(buffer: &mut CircularBuffer<10, ExecutedOpcode>, item: ExecutedOpcode)
    ensures
        opcode_history(*final(buffer)) == history_pushed(
            opcode_history(*old(buffer)),
            history_entry(item),
        ),
{
    buffer.push_back(item)
}

/// `CircularBuffer::to_vec`: copies of the items, front to back.
#[verifier::external_body]
pub(crate) fn history_to_vec(buffer: &CircularBuffer<10, ExecutedOpcode>) -> (items: Vec<ExecutedOpcode>)
    ensures
        items@.len() == opcode_history(*buffer).len(),
        forall|i: int|
            0 <= i < items@.len() ==> history_entry(#[trigger] items@[i]) == opcode_history(
                *buffer,
            )[i],
{
    buffer.to_vec()
}

/// The SM83 CPU of the Game Boy Color.
pub struct Cpu {
    pub regs: Registers,
    pub ime: bool,
    pub previous_execution_state: Option<ExecutionState>,
    pub opcodes: CircularBuffer<10, ExecutedOpcode>,
}

/// Everything about the CPU that instructions read or change.
#[verifier::ext_equal]
pub struct CpuState {
    pub regs: Registers,
    pub ime: bool,
    pub previous_execution_state: Option<ExecutionState>,
    pub history: Seq<(u16, u8, u8, u8)>,
}

impl Cpu {
    pub open spec fn state(&self) -> CpuState {
        CpuState {
            regs: self.regs,
            ime: self.ime,
            previous_execution_state: self.previous_execution_state,
            history: opcode_history(self.opcodes),
        }
    }

    pub fn new() -> (cpu: Self)
        ensures
            cpu.state() == (CpuState {
                regs: Registers {
                    a: 0,
                    f: flags_of(0),
                    b: 0,
                    c: 0,
                    d: 0,
                    e: 0,
                    h: 0,
                    l: 0,
                    sp: 0,
                    pc: 0,
                },
                ime: true,
                previous_execution_state: None,
                history: Seq::empty(),
            }),
    {
        let regs = Registers::new();
        let ime = true;
        let opcodes = history_new();
        Cpu { regs, ime, previous_execution_state: None, opcodes }
    }

    /// The registers and the opcode history, oldest first.
    pub fn debug(&self) -> (snapshot: CpuDebug)
        ensures
            snapshot.registers == self.regs,
            snapshot.opcodes@.len() == opcode_history(self.opcodes).len(),
            forall|i: int|
                0 <= i < snapshot.opcodes@.len() ==> history_entry(#[trigger] snapshot.opcodes@[i])
                    == opcode_history(self.opcodes)[i],
    {
        CpuDebug { registers: self.regs, opcodes: history_to_vec(&self.opcodes) }
    }

    pub fn alu_op(&mut self, kind: u8, operand: u8)
        requires
            kind < 8,
        ensures
            final(self).regs == alu(kind, old(self).regs, operand),
            final(self).ime == old(self).ime,
            final(self).previous_execution_state == old(self).previous_execution_state,
            final(self).opcodes == old(self).opcodes,
    {
        if kind == 0 {
            self.add_a(operand)
        } else if kind == 1 {
            self.adc_a(operand)
        } else if kind == 2 {
            self.sub_a(operand)
        } else if kind == 3 {
            self.sbc_a(operand)
        } else if kind == 4 {
            self.and_a(operand)
        } else if kind == 5 {
            self.xor_a(operand)
        } else if kind == 6 {
            self.or_a(operand)
        } else {
            self.cp_a(operand)
        }
    }

    #[verifier::spinoff_prover]
    pub fn add_a(&mut self, operand: u8)
        ensures
            final(self).regs == alu(0, old(self).regs, operand),
            final(self).ime == old(self).ime,
            final(self).previous_execution_state == old(self).previous_execution_state,
            final(self).opcodes == old(self).opcodes,
    {
        let a = self.regs.a;
        let result = a.wrapping_add(operand);
        let carry = a as u16 + operand as u16 > 0xFF;
        assert((a & 0x0F) + (operand & 0x0F) == a % 16 + operand % 16) by {
            crate::bits::lemma_u8_bits(a);
            crate::bits::lemma_u8_bits(operand);
        }
        self.regs.f.zero = result == 0x00;
        self.regs.f.negative = false;
        self.regs.f.half_carry = (a & 0x0F) + (operand & 0x0F) > 0x0F;
        self.regs.f.carry = carry;
        self.regs.a = result;
    }

    #[verifier::spinoff_prover]
    pub fn adc_a(&mut self, operand: u8)
        ensures
            final(self).regs == alu(1, old(self).regs, operand),
            final(self).ime == old(self).ime,
            final(self).previous_execution_state == old(self).previous_execution_state,
            final(self).opcodes == old(self).opcodes,
    {
        let a = self.regs.a;
        let carry: u8 = if self.regs.f.carry { 1 } else { 0 };
        let result = a.wrapping_add(operand).wrapping_add(carry);
        assert((a & 0xF) + (operand & 0xF) == a % 16 + operand % 16) by {
            crate::bits::lemma_u8_bits(a);
            crate::bits::lemma_u8_bits(operand);
        }
        self.regs.f.zero = result == 0x00;
        self.regs.f.negative = false;
        self.regs.f.half_carry = ((a & 0xF) + (operand & 0xF) + carry) > 0xF;
        self.regs.f.carry = ((a as u16) + (operand as u16) + (carry as u16)) > 0xFF;
        self.regs.a = result;
    }

    #[verifier::spinoff_prover]
    pub fn sub_a(&mut self, operand: u8)
        ensures
            final(self).regs == alu(2, old(self).regs, operand),
            final(self).ime == old(self).ime,
            final(self).previous_execution_state == old(self).previous_execution_state,
            final(self).opcodes == old(self).opcodes,
    {
        let a = self.regs.a;
        let result = a.wrapping_sub(operand);
        let borrow = a < operand;
        assert((a & 0x0F) == a % 16 && (operand & 0x0F) == operand % 16) by {
            crate::bits::lemma_u8_bits(a);
            crate::bits::lemma_u8_bits(operand);
        }
        self.regs.f.zero = result == 0x00;
        self.regs.f.negative = true;
        self.regs.f.half_carry = (a & 0x0F) < (operand & 0x0F);
        self.regs.f.carry = borrow;
        self.regs.a = result;
    }

    #[verifier::spinoff_prover]
    #[verifier::rlimit(40)]
    #[verifier::spinoff_prover]
    pub fn sbc_a(&mut self, operand: u8)
        ensures
            final(self).regs == alu(3, old(self).regs, operand),
            final(self).ime == old(self).ime,
            final(self).previous_execution_state == old(self).previous_execution_state,
            final(self).opcodes == old(self).opcodes,
    {
        let a = self.regs.a;
        let carry: u8 = if self.regs.f.carry { 1 } else { 0 };
        let result = a.wrapping_sub(operand).wrapping_sub(carry);
        let low_a = a & 0xF;
        let low_operand = operand & 0xF;
        let t1 = low_a.wrapping_sub(low_operand);
        let t2 = t1.wrapping_sub(carry);
        let half = t2 & (0xF + 1) != 0;
        proof {
            assert(low_a == a % 16 && low_operand == operand % 16) by {
                crate::bits::lemma_u8_bits(a);
                crate::bits::lemma_u8_bits(operand);
            }
            assert(t2 < 16 ==> t2 & 0x10 == 0) by {
                crate::bits::lemma_u8_bits(t2);
            }
            assert(t2 >= 240 ==> t2 & 0x10 != 0) by {
                crate::bits::lemma_u8_bits(t2);
            }
            assert(t2 < 16 ==> t2 & 0x10 == 0) by {
                crate::bits::lemma_u8_bits(t2);
            }
            assert(t2 >= 240 ==> t2 & 0x10 != 0) by {
                crate::bits::lemma_u8_bits(t2);
            }
        }
        self.regs.f.zero = result == 0x00;
        self.regs.f.negative = true;
        self.regs.f.half_carry = half;
        self.regs.f.carry = (a as u16) < (operand as u16) + (carry as u16);
        self.regs.a = result;
    }

    #[verifier::spinoff_prover]
    pub fn and_a(&mut self, operand: u8)
        ensures
            final(self).regs == alu(4, old(self).regs, operand),
            final(self).ime == old(self).ime,
            final(self).previous_execution_state == old(self).previous_execution_state,
            final(self).opcodes == old(self).opcodes,
    {
        self.regs.a = self.regs.a & operand;
        self.regs.f.zero = self.regs.a == 0x00;
        self.regs.f.negative = false;
        self.regs.f.half_carry = true;
        self.regs.f.carry = false;
    }

    #[verifier::spinoff_prover]
    pub fn xor_a(&mut self, operand: u8)
        ensures
            final(self).regs == alu(5, old(self).regs, operand),
            final(self).ime == old(self).ime,
            final(self).previous_execution_state == old(self).previous_execution_state,
            final(self).opcodes == old(self).opcodes,
    {
        self.regs.a = self.regs.a ^ operand;
        self.regs.f.zero = self.regs.a == 0x00;
        self.regs.f.carry = false;
        self.regs.f.half_carry = false;
        self.regs.f.negative = false;
    }

    #[verifier::spinoff_prover]
    pub fn or_a(&mut self, operand: u8)
        ensures
            final(self).regs == alu(6, old(self).regs, operand),
            final(self).ime == old(self).ime,
            final(self).previous_execution_state == old(self).previous_execution_state,
            final(self).opcodes == old(self).opcodes,
    {
        self.regs.a = self.regs.a | operand;
        self.regs.f.zero = self.regs.a == 0x00;
        self.regs.f.carry = false;
        self.regs.f.half_carry = false;
        self.regs.f.negative = false;
    }

    #[verifier::spinoff_prover]
    pub fn cp_a(&mut self, operand: u8)
        ensures
            final(self).regs == alu(7, old(self).regs, operand),
            final(self).ime == old(self).ime,
            final(self).previous_execution_state == old(self).previous_execution_state,
            final(self).opcodes == old(self).opcodes,
    {
        let a = self.regs.a;
        let result = a.wrapping_sub(operand);
        let borrow = a < operand;
        assert((a & 0x0F) == a % 16 && (operand & 0x0F) == operand % 16) by {
            crate::bits::lemma_u8_bits(a);
            crate::bits::lemma_u8_bits(operand);
        }
        self.regs.f.zero = result == 0x00;
        self.regs.f.negative = true;
        self.regs.f.half_carry = (a & 0x0F) < (operand & 0x0F);
        self.regs.f.carry = borrow;
    }
}

impl Cpu {
    pub fn rlc(&mut self, operand: u8) -> (result: u8)
        ensures
            (result, final(self).regs) == rotate(0, old(self).regs, operand),
            final(self).ime == old(self).ime,
            final(self).previous_execution_state == old(self).previous_execution_state,
            final(self).opcodes == old(self).opcodes,
    {
        let bit7: u8 = if operand & 0x80 != 0 { 1 } else { 0 };
        assert((operand & 0x80 != 0) == (operand >= 128)) by {
            crate::bits::lemma_u8_bits(operand);
        }
        let result = (operand << 1u8) | bit7;
        proof {
            crate::bits::lemma_u8_shift_in(operand, bit7);
        }
        self.regs.f.carry = bit7 != 0;
        self.regs.f.zero = result == 0x00;
        self.regs.f.negative = false;
        self.regs.f.half_carry = false;
        result
    }

    pub fn rrc(&mut self, operand: u8) -> (result: u8)
        ensures
            (result, final(self).regs) == rotate(1, old(self).regs, operand),
            final(self).ime == old(self).ime,
            final(self).previous_execution_state == old(self).previous_execution_state,
            final(self).opcodes == old(self).opcodes,
    {
        let bit0: u8 = if operand & 0x1 != 0 { 1 } else { 0 };
        assert((operand & 0x1 != 0) == (operand % 2 == 1)) by {
            crate::bits::lemma_u8_bits(operand);
        }
        let result = (operand >> 1u8) | (bit0 << 7u8);
        proof {
            crate::bits::lemma_u8_pair_bits(operand, bit0);
        }
        self.regs.f.carry = bit0 != 0;
        self.regs.f.zero = result == 0x00;
        self.regs.f.negative = false;
        self.regs.f.half_carry = false;
        result
    }

    pub fn rl(&mut self, operand: u8) -> (result: u8)
        ensures
            (result, final(self).regs) == rotate(2, old(self).regs, operand),
            final(self).ime == old(self).ime,
            final(self).previous_execution_state == old(self).previous_execution_state,
            final(self).opcodes == old(self).opcodes,
    {
        let carry: u8 = if self.regs.f.carry { 1 } else { 0 };
        assert((operand & 0x80 != 0) == (operand >= 128)) by {
            crate::bits::lemma_u8_bits(operand);
        }
        let result = (operand << 1u8) | carry;
        proof {
            crate::bits::lemma_u8_shift_in(operand, carry);
        }
        self.regs.f.carry = (operand & 0x80) != 0;
        self.regs.f.zero = result == 0x00;
        self.regs.f.negative = false;
        self.regs.f.half_carry = false;
        result
    }

    pub fn rr(&mut self, operand: u8) -> (result: u8)
        ensures
            (result, final(self).regs) == rotate(3, old(self).regs, operand),
            final(self).ime == old(self).ime,
            final(self).previous_execution_state == old(self).previous_execution_state,
            final(self).opcodes == old(self).opcodes,
    {
        let carry: u8 = if self.regs.f.carry { 1 } else { 0 };
        assert((operand & 0b1 != 0) == (operand % 2 == 1)) by {
            crate::bits::lemma_u8_bits(operand);
        }
        let result = (operand >> 1u8) | (carry << 7u8);
        proof {
            crate::bits::lemma_u8_pair_bits(operand, carry);
        }
        self.regs.f.carry = (operand & 0b1) != 0;
        self.regs.f.zero = result == 0x00;
        self.regs.f.negative = false;
        self.regs.f.half_carry = false;
        result
    }

    pub fn sla(&mut self, operand: u8) -> (result: u8)
        ensures
            (result, final(self).regs) == rotate(4, old(self).regs, operand),
            final(self).ime == old(self).ime,
            final(self).previous_execution_state == old(self).previous_execution_state,
            final(self).opcodes == old(self).opcodes,
    {
        assert((operand & 0x80 != 0) == (operand >= 128)) by {
            crate::bits::lemma_u8_bits(operand);
        }
        let result = operand << 1u8;
        assert((operand << 1u8) as int == (operand as int * 2) % 256) by {
            crate::bits::lemma_u8_shift_in(operand, 0);
        }
        self.regs.f.carry = operand & 0x80 != 0;
        self.regs.f.zero = result == 0x00;
        self.regs.f.negative = false;
        self.regs.f.half_carry = false;
        result
    }

    pub fn sra(&mut self, operand: u8) -> (result: u8)
        ensures
            (result, final(self).regs) == rotate(5, old(self).regs, operand),
            final(self).ime == old(self).ime,
            final(self).previous_execution_state == old(self).previous_execution_state,
            final(self).opcodes == old(self).opcodes,
    {
        assert((operand & 0x1 != 0) == (operand % 2 == 1)) by {
            crate::bits::lemma_u8_bits(operand);
        }
        let result = ((operand as i8) >> 1u8) as u8;
        proof {
            crate::bits::lemma_u8_bits(operand);
        }
        self.regs.f.carry = operand & 0x1 != 0;
        self.regs.f.zero = result == 0x00;
        self.regs.f.negative = false;
        self.regs.f.half_carry = false;
        result
    }

    pub fn swap(&mut self, operand: u8) -> (result: u8)
        ensures
            (result, final(self).regs) == rotate(6, old(self).regs, operand),
            final(self).ime == old(self).ime,
            final(self).previous_execution_state == old(self).previous_execution_state,
            final(self).opcodes == old(self).opcodes,
    {
        let result = (operand >> 4u8) | (operand << 4u8);
        proof {
            crate::bits::lemma_u8_bits(operand);
        }
        self.regs.f.zero = result == 0x00;
        self.regs.f.negative = false;
        self.regs.f.half_carry = false;
        self.regs.f.carry = false;
        result
    }

    pub fn srl(&mut self, operand: u8) -> (result: u8)
        ensures
            (result, final(self).regs) == rotate(7, old(self).regs, operand),
            final(self).ime == old(self).ime,
            final(self).previous_execution_state == old(self).previous_execution_state,
            final(self).opcodes == old(self).opcodes,
    {
        assert((operand & 0b1 != 0) == (operand % 2 == 1)) by {
            crate::bits::lemma_u8_bits(operand);
        }
        let result = operand >> 1u8;
        assert((operand >> 1u8) as int == operand as int / 2) by {
            crate::bits::lemma_u8_bits(operand);
        }
        self.regs.f.carry = (operand & 0b1) != 0;
        self.regs.f.zero = result == 0x00;
        self.regs.f.negative = false;
        self.regs.f.half_carry = false;
        result
    }

    pub fn rotate_op(&mut self, kind: u8, operand: u8) -> (result: u8)
        requires
            kind < 8,
        ensures
            (result, final(self).regs) == rotate(kind, old(self).regs, operand),
            final(self).ime == old(self).ime,
            final(self).previous_execution_state == old(self).previous_execution_state,
            final(self).opcodes == old(self).opcodes,
    {
        if kind == 0 {
            self.rlc(operand)
        } else if kind == 1 {
            self.rrc(operand)
        } else if kind == 2 {
            self.rl(operand)
        } else if kind == 3 {
            self.rr(operand)
        } else if kind == 4 {
            self.sla(operand)
        } else if kind == 5 {
            self.sra(operand)
        } else if kind == 6 {
            self.swap(operand)
        } else {
            self.srl(operand)
        }
    }

    pub fn flag_ops(&mut self, opcode: u8)
        ensures
            final(self).regs == flag_op((opcode / 8) % 8, old(self).regs),
            final(self).ime == old(self).ime,
            final(self).previous_execution_state == old(self).previous_execution_state,
            final(self).opcodes == old(self).opcodes,
    {
        let b543 = (opcode & 0x38) >> 3u8;
        assert((opcode & 0x38) >> 3u8 == (opcode / 8) % 8) by {
            crate::bits::lemma_u8_bits(opcode);
        }
        if b543 == 0 {
            self.regs.a = self.rlca();
        } else if b543 == 1 {
            self.regs.a = self.rrca();
        } else if b543 == 2 {
            self.regs.a = self.rla();
        } else if b543 == 3 {
            self.regs.a = self.rra();
        } else if b543 == 4 {
            self.regs.a = self.daa();
        } else if b543 == 5 {
            self.cpl();
        } else if b543 == 6 {
            self.scf();
        } else {
            self.ccf();
        }
    }

    fn rlca(&mut self) -> (result: u8)
        ensures
            result == rotate(0, old(self).regs, old(self).regs.a).0,
            final(self).regs == (Registers { f: FlagRegister { zero: false, ..rotate(0, old(self).regs, old(self).regs.a).1.f }, ..old(self).regs }),
            final(self).ime == old(self).ime,
            final(self).previous_execution_state == old(self).previous_execution_state,
            final(self).opcodes == old(self).opcodes,
    {
        let result = self.rlc(self.regs.a);
        // RLCA unsets zero flag always
        self.regs.f.zero = false;
        result
    }

    fn rrca(&mut self) -> (result: u8)
        ensures
            result == rotate(1, old(self).regs, old(self).regs.a).0,
            final(self).regs == (Registers { f: FlagRegister { zero: false, ..rotate(1, old(self).regs, old(self).regs.a).1.f }, ..old(self).regs }),
            final(self).ime == old(self).ime,
            final(self).previous_execution_state == old(self).previous_execution_state,
            final(self).opcodes == old(self).opcodes,
    {
        let result = self.rrc(self.regs.a);
        // RRCA unsets zero flag always
        self.regs.f.zero = false;
        result
    }

    fn rla(&mut self) -> (result: u8)
        ensures
            result == rotate(2, old(self).regs, old(self).regs.a).0,
            final(self).regs == (Registers { f: FlagRegister { zero: false, ..rotate(2, old(self).regs, old(self).regs.a).1.f }, ..old(self).regs }),
            final(self).ime == old(self).ime,
            final(self).previous_execution_state == old(self).previous_execution_state,
            final(self).opcodes == old(self).opcodes,
    {
        let result = self.rl(self.regs.a);
        // RLA unsets zero flag always
        self.regs.f.zero = false;
        result
    }

    fn rra(&mut self) -> (result: u8)
        ensures
            result == rotate(3, old(self).regs, old(self).regs.a).0,
            final(self).regs == (Registers { f: FlagRegister { zero: false, ..rotate(3, old(self).regs, old(self).regs.a).1.f }, ..old(self).regs }),
            final(self).ime == old(self).ime,
            final(self).previous_execution_state == old(self).previous_execution_state,
            final(self).opcodes == old(self).opcodes,
    {
        let result = self.rr(self.regs.a);
        // RRA unsets zero flag always
        self.regs.f.zero = false;
        result
    }

    #[verifier::spinoff_prover]
    fn daa(&mut self) -> (result: u8)
        ensures
            final(self).regs == daa(old(self).regs),
            result == final(self).regs.a,
            final(self).ime == old(self).ime,
            final(self).previous_execution_state == old(self).previous_execution_state,
            final(self).opcodes == old(self).opcodes,
    {
        let mut correction: u8 = 0x00;
        if self.regs.f.half_carry || (!self.regs.f.negative && (self.regs.a & 0xF) > 9) {
            correction = correction | 0x6;
        }
        if self.regs.f.carry || (!self.regs.f.negative && (self.regs.a > 0x99)) {
            correction = correction | 0x60;
            self.regs.f.carry = true;
        }
        let a = self.regs.a;
        assert(a & 0xF == a % 16) by {
            crate::bits::lemma_u8_bits(a);
        }
        assert((0u8 | 0x6u8) == 0x6u8 && (0u8 | 0x60u8) == 0x60u8 && (0x6u8 | 0x60u8) == 0x66u8) by {
            crate::bits::lemma_u8_bits(a);
        }
        if self.regs.f.negative {
            self.regs.a = self.regs.a.wrapping_sub(correction);
        } else {
            self.regs.a = self.regs.a.wrapping_add(correction);
        }
        self.regs.f.zero = self.regs.a == 0x00;
        self.regs.f.half_carry = false;
        self.regs.a
    }

    fn cpl(&mut self)
        ensures
            final(self).regs == flag_op(5, old(self).regs),
            final(self).ime == old(self).ime,
            final(self).previous_execution_state == old(self).previous_execution_state,
            final(self).opcodes == old(self).opcodes,
    {
        let a = self.regs.a;
        assert(!a == 255 - a) by {
            crate::bits::lemma_u8_bits(a);
        }
        self.regs.a = !a;
        self.regs.f.negative = true;
        self.regs.f.half_carry = true;
    }

    fn scf(&mut self)
        ensures
            final(self).regs == flag_op(6, old(self).regs),
            final(self).ime == old(self).ime,
            final(self).previous_execution_state == old(self).previous_execution_state,
            final(self).opcodes == old(self).opcodes,
    {
        self.regs.f.negative = false;
        self.regs.f.half_carry = false;
        self.regs.f.carry = true;
    }

    fn ccf(&mut self)
        ensures
            final(self).regs == flag_op(7, old(self).regs),
            final(self).ime == old(self).ime,
            final(self).previous_execution_state == old(self).previous_execution_state,
            final(self).opcodes == old(self).opcodes,
    {
        self.regs.f.negative = false;
        self.regs.f.half_carry = false;
        self.regs.f.carry = !self.regs.f.carry;
    }

    /// INC on a byte: the result, with the flags set.
    pub(crate) fn inc_value(&mut self, operand: u8) -> (result: u8)
        ensures
            (result, final(self).regs) == inc8(old(self).regs, operand),
            final(self).ime == old(self).ime,
            final(self).previous_execution_state == old(self).previous_execution_state,
            final(self).opcodes == old(self).opcodes,
    {
        let result = operand.wrapping_add(1);
        assert((operand & 0x0F) + 1 > 0x0F <==> operand % 16 == 15) by {
            crate::bits::lemma_u8_bits(operand);
        }
        assert(operand & 0x0F <= 15) by {
            crate::bits::lemma_u8_bits(operand);
        }
        self.regs.f.zero = result == 0x00;
        self.regs.f.negative = false;
        self.regs.f.half_carry = ((operand & 0x0F) + 0x1) > 0x0F;
        result
    }

    /// DEC on a byte: the result, with the flags set.
    pub(crate) fn dec_value(&mut self, operand: u8) -> (result: u8)
        ensures
            (result, final(self).regs) == dec8(old(self).regs, operand),
            final(self).ime == old(self).ime,
            final(self).previous_execution_state == old(self).previous_execution_state,
            final(self).opcodes == old(self).opcodes,
    {
        let result = operand.wrapping_sub(1);
        assert((operand & 0x0F == 0x00) <==> operand % 16 == 0) by {
            crate::bits::lemma_u8_bits(operand);
        }
        self.regs.f.zero = result == 0x00;
        self.regs.f.negative = true;
        self.regs.f.half_carry = operand & 0x0F == 0x00;
        result
    }

    /// One of the four branch conditions NZ, Z, NC, C.
    pub fn check_condition(&self, bits: u8) -> (holds: bool)
        requires
            bits < 4,
        ensures
            holds == condition(self.regs, bits),
    {
        if bits == 0 {
            !self.regs.f.zero
        } else if bits == 1 {
            self.regs.f.zero
        } else if bits == 2 {
            !self.regs.f.carry
        } else {
            self.regs.f.carry
        }
    }

    pub(crate) fn inc_r16(&mut self, opcode: u8)
        ensures
            final(self).regs == set_group1(old(self).regs, (opcode / 16) % 4, wrap16(group1(old(self).regs, (opcode / 16) % 4) + 1)),
            final(self).ime == old(self).ime,
            final(self).previous_execution_state == old(self).previous_execution_state,
            final(self).opcodes == old(self).opcodes,
    {
        let b54 = (opcode & 0x30) >> 4u8;
        assert((opcode & 0x30) >> 4u8 == (opcode / 16) % 4) by {
            crate::bits::lemma_u8_bits(opcode);
        }
        WordRegister::for_group1(b54).inc(&mut self.regs);
    }

    pub(crate) fn dec_r16(&mut self, opcode: u8)
        ensures
            final(self).regs == set_group1(old(self).regs, (opcode / 16) % 4, wrap16(group1(old(self).regs, (opcode / 16) % 4) - 1)),
            final(self).ime == old(self).ime,
            final(self).previous_execution_state == old(self).previous_execution_state,
            final(self).opcodes == old(self).opcodes,
    {
        let b54 = (opcode & 0x30) >> 4u8;
        assert((opcode & 0x30) >> 4u8 == (opcode / 16) % 4) by {
            crate::bits::lemma_u8_bits(opcode);
        }
        WordRegister::for_group1(b54).dec(&mut self.regs);
    }

    pub(crate) fn di(&mut self, _opcode: u8)
        ensures
            final(self).regs == old(self).regs,
            !final(self).ime,
            final(self).previous_execution_state == old(self).previous_execution_state,
            final(self).opcodes == old(self).opcodes,
    {
        self.ime = false;
    }

    pub(crate) fn jp_hl(&mut self, _opcode: u8)
        ensures
            final(self).regs == (Registers { pc: hl(old(self).regs), ..old(self).regs }),
            final(self).ime == old(self).ime,
            final(self).previous_execution_state == old(self).previous_execution_state,
            final(self).opcodes == old(self).opcodes,
    {
        self.regs.pc = self.regs.get_hl();
    }
}

/// The branch conditions NZ, Z, NC, C.
pub open spec fn condition(r: Registers, bits: u8) -> bool {
    if bits == 0 {
        !r.f.zero
    } else if bits == 1 {
        r.f.zero
    } else if bits == 2 {
        !r.f.carry
    } else {
        r.f.carry
    }
}

// Instructions that use the bus ----------------------------------------------------------------

/// What a bus records on top of earlier events is what it has recorded since.
pub proof fn lemma_new_events<M: SystemBus>(before: M, after: M)
    ensures
        after.bus_events() == before.bus_events() ==> new_events(before, after) == Seq::<BusEvent>::empty()
            && recorded(before, after, Seq::<BusEvent>::empty()),
        forall|e: BusEvent|
            after.bus_events() == before.bus_events().push(e) ==> new_events(before, after) == seq![e]
                && recorded(before, after, seq![e]),
        forall|e1: BusEvent, e2: BusEvent|
            after.bus_events() == before.bus_events().push(e1).push(e2) ==> new_events(before, after)
                == seq![e1, e2] && recorded(before, after, seq![e1, e2]),
        forall|x: Seq<BusEvent>|
            after.bus_events() == before.bus_events() + x ==> new_events(before, after) == x,
{
    assert forall|x: Seq<BusEvent>| after.bus_events() == before.bus_events() + x implies new_events(
        before,
        after,
    ) == x by {
        assert(new_events(before, after) =~= x);
    }
    assert forall|e: BusEvent| after.bus_events() == before.bus_events().push(e) implies new_events(
        before,
        after,
    ) == seq![e] && recorded(before, after, seq![e]) by {
        assert(new_events(before, after) =~= seq![e]);
        assert(after.bus_events() =~= before.bus_events() + seq![e]);
    }
    assert forall|e1: BusEvent, e2: BusEvent|
        after.bus_events() == before.bus_events().push(e1).push(e2) implies new_events(before, after)
        == seq![e1, e2] && recorded(before, after, seq![e1, e2]) by {
        assert(new_events(before, after) =~= seq![e1, e2]);
        assert(after.bus_events() =~= before.bus_events() + seq![e1, e2]);
    }
    if after.bus_events() == before.bus_events() {
        assert(new_events(before, after) =~= Seq::<BusEvent>::empty());
        assert(after.bus_events() =~= before.bus_events() + Seq::<BusEvent>::empty());
    }
}

/// What a bus has recorded since `before`.
pub open spec fn new_events<M: SystemBus>(before: M, after: M) -> Seq<BusEvent> {
    after.bus_events().skip(before.bus_events().len() as int)
}

/// `after` has recorded exactly `events` on top of what `before` had.
pub open spec fn recorded<M: SystemBus>(before: M, after: M, events: Seq<BusEvent>) -> bool {
    after.bus_events() == before.bus_events() + events
}

/// The bus recorded the events an instruction's semantics gives and the CPU
/// ended in the state it gives.
pub open spec fn performs<M: SystemBus>(before: M, after: M, s: CpuState, s2: CpuState, semantics: (CpuState, Seq<BusEvent>)) -> bool {
    recorded(before, after, semantics.1) && s2 == semantics.0
}

/// The byte the `k`-th event returned.
pub open spec fn rd(ev: Seq<BusEvent>, k: int) -> u8 {
    event_data(ev[k])
}

/// A read of `address` returning what the `k`-th event returned.
pub open spec fn read_at(address: u16, ev: Seq<BusEvent>, k: int) -> BusEvent {
    BusEvent::Read { address, data: rd(ev, k) }
}

pub open spec fn with_regs(s: CpuState, r: Registers) -> CpuState {
    CpuState { regs: r, ..s }
}

pub open spec fn pc_plus(r: Registers, n: int) -> Registers {
    Registers { pc: wrap16(r.pc + n), ..r }
}

/// The value of the operand named by three opcode bits; (HL) is the byte
/// the `k`-th event read.
pub open spec fn operand_value(r: Registers, index: u8, ev: Seq<BusEvent>, k: int) -> u8 {
    if index == 6 {
        rd(ev, k)
    } else {
        reg8(r, index)
    }
}

/// The read an operand needs: none for a register, one of (HL) for memory.
pub open spec fn operand_events(r: Registers, index: u8, ev: Seq<BusEvent>, k: int) -> Seq<BusEvent> {
    if index == 6 {
        seq![read_at(hl(r), ev, k)]
    } else {
        seq![]
    }
}

pub open spec fn store_events(r: Registers, index: u8, v: u8) -> Seq<BusEvent> {
    if index == 6 {
        seq![BusEvent::Write { address: hl(r), data: v }]
    } else {
        seq![]
    }
}

pub open spec fn store_regs(r: Registers, index: u8, v: u8) -> Registers {
    if index == 6 {
        r
    } else {
        set_reg8(r, index, v)
    }
}

/// An 8-bit register or the byte at (HL), named by opcode bits.
#[derive(Debug, Copy, Clone, PartialEq, Eq, Structural)]
pub enum ByteRegister {
    Register(u8),
    MemoryReference(u16),
}

impl ByteRegister {
    pub fn for_r8(bits: u8, regs: &Registers) -> (operand: Self)
        requires
            bits < 8,
        ensures
            bits == 6 ==> operand == ByteRegister::MemoryReference(hl(*regs)),
            bits != 6 ==> operand == ByteRegister::Register(bits),
    {
        if bits == 6 {
            ByteRegister::MemoryReference(regs.get_hl())
        } else {
            ByteRegister::Register(bits)
        }
    }

    pub fn get<M: SystemBus>(&self, regs: &Registers, mmu: &mut M) -> (value: u8)
        requires
            old(mmu).bus_wf(),
            *self matches ByteRegister::Register(i) ==> i < 8 && i != 6,
            *self is MemoryReference ==> old(mmu).cycle_budget() > 0,
        ensures
            final(mmu).bus_wf(),
            *self matches ByteRegister::Register(i) ==> value == reg8(*regs, i) && *final(mmu)
                == *old(mmu),
            *self matches ByteRegister::MemoryReference(address) ==> final(mmu).bus_events()
                == old(mmu).bus_events().push(BusEvent::Read { address, data: value })
                && final(mmu).cycle_budget() + 1 == old(mmu).cycle_budget(),
    {
        match self {
            ByteRegister::Register(i) => {
                let i = *i;
                if i == 0 {
                    regs.b
                } else if i == 1 {
                    regs.c
                } else if i == 2 {
                    regs.d
                } else if i == 3 {
                    regs.e
                } else if i == 4 {
                    regs.h
                } else if i == 5 {
                    regs.l
                } else {
                    regs.a
                }
            },
            ByteRegister::MemoryReference(address) => mmu.read(*address),
        }
    }

    pub fn set<M: SystemBus>(&self, value: u8, regs: &mut Registers, mmu: &mut M)
        requires
            old(mmu).bus_wf(),
            *self matches ByteRegister::Register(i) ==> i < 8 && i != 6,
            *self is MemoryReference ==> old(mmu).cycle_budget() > 0,
        ensures
            final(mmu).bus_wf(),
            *self matches ByteRegister::Register(i) ==> *final(regs) == set_reg8(*old(regs), i, value)
                && *final(mmu) == *old(mmu),
            *self matches ByteRegister::MemoryReference(address) ==> final(mmu).bus_events()
                == old(mmu).bus_events().push(BusEvent::Write { address, data: value })
                && final(mmu).cycle_budget() + 1 == old(mmu).cycle_budget() && *final(regs)
                == *old(regs),
    {
        match self {
            ByteRegister::Register(i) => {
                let i = *i;
                if i == 0 {
                    regs.b = value
                } else if i == 1 {
                    regs.c = value
                } else if i == 2 {
                    regs.d = value
                } else if i == 3 {
                    regs.e = value
                } else if i == 4 {
                    regs.h = value
                } else if i == 5 {
                    regs.l = value
                } else {
                    regs.a = value
                }
            },
            ByteRegister::MemoryReference(address) => mmu.write(*address, value),
        }
    }
}

/// ADD/ADC/SUB/SBC/AND/XOR/OR/CP A, r8.
pub open spec fn alu_a_r8_spec(opcode: u8, s: CpuState, ev: Seq<BusEvent>) -> (CpuState, Seq<BusEvent>) {
    let src = opcode % 8;
    let kind = (opcode / 8) % 8;
    (
        with_regs(s, alu(kind, s.regs, operand_value(s.regs, src, ev, 0))),
        operand_events(s.regs, src, ev, 0),
    )
}

/// ADD/ADC/SUB/SBC/AND/XOR/OR/CP A, u8.
pub open spec fn alu_a_u8_spec(opcode: u8, s: CpuState, ev: Seq<BusEvent>) -> (CpuState, Seq<BusEvent>) {
    let kind = (opcode / 8) % 8;
    (with_regs(s, alu(kind, pc_plus(s.regs, 1), rd(ev, 0))), seq![read_at(s.regs.pc, ev, 0)])
}

impl Cpu {
    pub(crate) fn fetch<M: SystemBus>(&mut self, mmu: &mut M) -> (byte: u8)
        requires
            old(mmu).bus_wf(),
            old(mmu).cycle_budget() > 0,
        ensures
            final(mmu).bus_wf(),
            final(mmu).bus_events() == old(mmu).bus_events().push(
                BusEvent::Read { address: old(self).regs.pc, data: byte },
            ),
            final(mmu).cycle_budget() + 1 == old(mmu).cycle_budget(),
            final(self).regs == pc_plus(old(self).regs, 1),
            final(self).ime == old(self).ime,
            final(self).previous_execution_state == old(self).previous_execution_state,
            final(self).opcodes == old(self).opcodes,
    {
        let byte = mmu.read(self.regs.pc);
        self.regs.pc = self.regs.pc.wrapping_add(1);
        byte
    }

    pub(crate) fn alu_a_r8<M: SystemBus>(&mut self, opcode: u8, mmu: &mut M)
        requires
            old(mmu).bus_wf(),
            old(mmu).cycle_budget() >= 1,
        ensures
            final(mmu).bus_wf(),
            performs(*old(mmu), *final(mmu), old(self).state(), final(self).state(), alu_a_r8_spec(opcode, old(self).state(), new_events(*old(mmu), *final(mmu)))),
            final(mmu).cycle_budget() + 1 >= old(mmu).cycle_budget(),
            final(mmu).cycle_budget() <= old(mmu).cycle_budget(),
    {
        let b543 = (opcode & 0x38) >> 3u8;
        let b321 = opcode & 0x07;
        assert((opcode & 0x38) >> 3u8 == (opcode / 8) % 8) by {
            crate::bits::lemma_u8_bits(opcode);
        }
        assert(opcode & 0x07 == opcode % 8) by {
            crate::bits::lemma_u8_bits(opcode);
        }
        let operand = ByteRegister::for_r8(b321, &self.regs).get(&self.regs, mmu);
        proof {
            lemma_new_events(*old(mmu), *mmu);
        }
        self.alu_op(b543, operand);
        assert(self.state() =~= alu_a_r8_spec(opcode, old(self).state(), new_events(*old(mmu), *mmu)).0);
        assert(alu_a_r8_spec(opcode, old(self).state(), new_events(*old(mmu), *mmu)).1 =~= new_events(*old(mmu), *mmu));
    }
}

/// Events recorded in two stretches add up.
pub proof fn lemma_chain<M: SystemBus>(before: M, mid: M, after: M, a: Seq<BusEvent>, b: Seq<BusEvent>)
    requires
        recorded(before, mid, a),
        recorded(mid, after, b),
    ensures
        recorded(before, after, a + b),
        new_events(before, after) == a + b,
        new_events(mid, after) == b,
        (a + b).skip(a.len() as int) == b,
{
    assert(after.bus_events() =~= before.bus_events() + (a + b));
    lemma_new_events(before, after);
    lemma_new_events(mid, after);
    assert((a + b).skip(a.len() as int) =~= b);
}

/// Nothing recorded yet.
pub proof fn lemma_recorded_nothing<M: SystemBus>(m: M)
    ensures
        recorded(m, m, Seq::<BusEvent>::empty()),
        new_events(m, m) == Seq::<BusEvent>::empty(),
{
    lemma_new_events(m, m);
}

pub open spec fn opcode_b543(opcode: u8) -> u8 {
    (opcode / 8) % 8
}

pub open spec fn opcode_b54(opcode: u8) -> u8 {
    (opcode / 16) % 4
}

pub open spec fn opcode_b43(opcode: u8) -> u8 {
    (opcode / 8) % 4
}

pub open spec fn stop_spec(s: CpuState, ev: Seq<BusEvent>) -> (CpuState, Seq<BusEvent>) {
    let key1 = rd(ev, 0);
    if key1 % 2 == 1 {
        (
            with_regs(s, pc_plus(s.regs, 1)),
            seq![
                BusEvent::Key1(key1),
                BusEvent::SetExecutionState(ExecutionState::PreparingSpeedSwitch),
                read_at(s.regs.pc, ev, 2),
            ],
        )
    } else {
        (with_regs(s, pc_plus(s.regs, 1)), seq![BusEvent::Key1(key1), read_at(s.regs.pc, ev, 1)])
    }
}

/// The two immediate bytes after the opcode, read little-endian.
pub open spec fn imm16_events(r: Registers, ev: Seq<BusEvent>) -> Seq<BusEvent> {
    seq![read_at(r.pc, ev, 0), read_at(wrap16(r.pc + 1), ev, 1)]
}

pub open spec fn imm16(ev: Seq<BusEvent>) -> u16 {
    word_from_bytes(rd(ev, 1), rd(ev, 0))
}

pub open spec fn ld_r16_u16_spec(opcode: u8, s: CpuState, ev: Seq<BusEvent>) -> (CpuState, Seq<BusEvent>) {
    (
        with_regs(s, set_group1(pc_plus(s.regs, 2), opcode_b54(opcode), imm16(ev))),
        imm16_events(s.regs, ev),
    )
}

/// HL after LD (HL+) / LD (HL-): incremented for group-2 bits 2, decremented
/// for 3.
pub open spec fn hl_step(r: Registers, bits: u8) -> Registers {
    if bits == 2 {
        with_hl(r, wrap16(hl(r) + 1))
    } else if bits == 3 {
        with_hl(r, wrap16(hl(r) - 1))
    } else {
        r
    }
}

pub open spec fn ld_r16_a_spec(opcode: u8, s: CpuState, ev: Seq<BusEvent>) -> (CpuState, Seq<BusEvent>) {
    let bits = opcode_b54(opcode);
    (
        with_regs(s, hl_step(s.regs, bits)),
        seq![BusEvent::Write { address: group2(s.regs, bits), data: s.regs.a }],
    )
}

pub open spec fn ld_a_r16_spec(opcode: u8, s: CpuState, ev: Seq<BusEvent>) -> (CpuState, Seq<BusEvent>) {
    let bits = opcode_b54(opcode);
    (
        with_regs(s, hl_step(Registers { a: rd(ev, 0), ..s.regs }, bits)),
        seq![read_at(group2(s.regs, bits), ev, 0)],
    )
}

pub open spec fn jr_spec(taken: bool, s: CpuState, ev: Seq<BusEvent>) -> (CpuState, Seq<BusEvent>) {
    let r1 = pc_plus(s.regs, 1);
    if taken {
        (
            with_regs(s, Registers { pc: wrap16(r1.pc + sign_extend(rd(ev, 0))), ..r1 }),
            seq![read_at(s.regs.pc, ev, 0), BusEvent::Tick],
        )
    } else {
        (with_regs(s, r1), seq![read_at(s.regs.pc, ev, 0)])
    }
}

pub open spec fn ld_r8_u8_spec(opcode: u8, s: CpuState, ev: Seq<BusEvent>) -> (CpuState, Seq<BusEvent>) {
    let dst = opcode_b543(opcode);
    let r1 = pc_plus(s.regs, 1);
    let v = rd(ev, 0);
    (with_regs(s, store_regs(r1, dst, v)), seq![read_at(s.regs.pc, ev, 0)] + store_events(r1, dst, v))
}

pub open spec fn inc_r8_spec(opcode: u8, s: CpuState, ev: Seq<BusEvent>) -> (CpuState, Seq<BusEvent>) {
    let index = opcode_b543(opcode);
    let v = operand_value(s.regs, index, ev, 0);
    let (res, r1) = inc8(s.regs, v);
    (
        with_regs(s, store_regs(r1, index, res)),
        operand_events(s.regs, index, ev, 0) + store_events(s.regs, index, res),
    )
}

pub open spec fn dec_r8_spec(opcode: u8, s: CpuState, ev: Seq<BusEvent>) -> (CpuState, Seq<BusEvent>) {
    let index = opcode_b543(opcode);
    let v = operand_value(s.regs, index, ev, 0);
    let (res, r1) = dec8(s.regs, v);
    (
        with_regs(s, store_regs(r1, index, res)),
        operand_events(s.regs, index, ev, 0) + store_events(s.regs, index, res),
    )
}

pub open spec fn ld_r8_r8_spec(opcode: u8, s: CpuState, ev: Seq<BusEvent>) -> (CpuState, Seq<BusEvent>) {
    let dst = opcode_b543(opcode);
    let src = opcode % 8;
    let v = operand_value(s.regs, src, ev, 0);
    (
        with_regs(s, store_regs(s.regs, dst, v)),
        operand_events(s.regs, src, ev, 0) + store_events(s.regs, dst, v),
    )
}

pub open spec fn halt_spec(s: CpuState, ev: Seq<BusEvent>) -> (CpuState, Seq<BusEvent>) {
    let state = event_state(ev[0]);
    (
        CpuState { previous_execution_state: Some(state), ..s },
        seq![BusEvent::ExecutionState(state), BusEvent::SetExecutionState(ExecutionState::Halted)],
    )
}

/// The address LDH uses: 0xFF00 plus an offset.
pub open spec fn high_address(offset: u8) -> u16 {
    (0xFF00 + offset) as u16
}

pub open spec fn ld_ff00_u8_a_spec(s: CpuState, ev: Seq<BusEvent>) -> (CpuState, Seq<BusEvent>) {
    (
        with_regs(s, pc_plus(s.regs, 1)),
        seq![
            read_at(s.regs.pc, ev, 0),
            BusEvent::Write { address: high_address(rd(ev, 0)), data: s.regs.a },
        ],
    )
}

pub open spec fn ld_ff00_c_a_spec(s: CpuState, ev: Seq<BusEvent>) -> (CpuState, Seq<BusEvent>) {
    (s, seq![BusEvent::Write { address: high_address(s.regs.c), data: s.regs.a }])
}

pub open spec fn ld_a_ff00_u8_spec(s: CpuState, ev: Seq<BusEvent>) -> (CpuState, Seq<BusEvent>) {
    (
        with_regs(s, Registers { a: rd(ev, 1), ..pc_plus(s.regs, 1) }),
        seq![read_at(s.regs.pc, ev, 0), read_at(high_address(rd(ev, 0)), ev, 1)],
    )
}

pub open spec fn ld_a_ff00_c_spec(s: CpuState, ev: Seq<BusEvent>) -> (CpuState, Seq<BusEvent>) {
    (with_regs(s, Registers { a: rd(ev, 0), ..s.regs }), seq![read_at(high_address(s.regs.c), ev, 0)])
}

/// Pushing a word: the two writes below SP, upper byte first.
pub open spec fn push_events(sp: u16, value: u16) -> Seq<BusEvent> {
    seq![
        BusEvent::Write { address: wrap16(sp - 1), data: word_msb(value) },
        BusEvent::Write { address: wrap16(sp - 2), data: word_lsb(value) },
    ]
}

pub open spec fn call_spec(s: CpuState, ev: Seq<BusEvent>) -> (CpuState, Seq<BusEvent>) {
    let r1 = pc_plus(s.regs, 2);
    (
        with_regs(s, Registers { pc: imm16(ev), sp: wrap16(r1.sp - 2), ..r1 }),
        imm16_events(s.regs, ev) + seq![BusEvent::Tick] + push_events(r1.sp, r1.pc),
    )
}

/// A conditional jump or call that is not taken still reads its address.
pub open spec fn skip16_spec(s: CpuState, ev: Seq<BusEvent>) -> (CpuState, Seq<BusEvent>) {
    (with_regs(s, pc_plus(s.regs, 2)), imm16_events(s.regs, ev))
}

pub open spec fn call_cc_spec(opcode: u8, s: CpuState, ev: Seq<BusEvent>) -> (CpuState, Seq<BusEvent>) {
    if condition(s.regs, opcode_b43(opcode)) {
        call_spec(s, ev)
    } else {
        skip16_spec(s, ev)
    }
}

pub open spec fn push_r16_spec(opcode: u8, s: CpuState, ev: Seq<BusEvent>) -> (CpuState, Seq<BusEvent>) {
    let value = group3(s.regs, opcode_b54(opcode));
    (
        with_regs(s, Registers { sp: wrap16(s.regs.sp - 2), ..s.regs }),
        seq![BusEvent::Tick] + push_events(s.regs.sp, value),
    )
}

/// Popping a word: the two reads at SP, lower byte first.
pub open spec fn pop_events(sp: u16, ev: Seq<BusEvent>) -> Seq<BusEvent> {
    seq![read_at(sp, ev, 0), read_at(wrap16(sp + 1), ev, 1)]
}

pub open spec fn pop_r16_spec(opcode: u8, s: CpuState, ev: Seq<BusEvent>) -> (CpuState, Seq<BusEvent>) {
    (
        with_regs(
            s,
            set_group3(
                Registers { sp: wrap16(s.regs.sp + 2), ..s.regs },
                opcode_b54(opcode),
                imm16(ev),
            ),
        ),
        pop_events(s.regs.sp, ev),
    )
}

pub open spec fn add_hl_r16_spec(opcode: u8, s: CpuState, ev: Seq<BusEvent>) -> (CpuState, Seq<BusEvent>) {
    (with_regs(s, add_hl(s.regs, group1(s.regs, opcode_b54(opcode)))), seq![BusEvent::Tick])
}

pub open spec fn ret_spec(s: CpuState, ev: Seq<BusEvent>) -> (CpuState, Seq<BusEvent>) {
    (
        with_regs(s, Registers { sp: wrap16(s.regs.sp + 2), pc: imm16(ev), ..s.regs }),
        pop_events(s.regs.sp, ev) + seq![BusEvent::Tick],
    )
}

pub open spec fn reti_spec(s: CpuState, ev: Seq<BusEvent>) -> (CpuState, Seq<BusEvent>) {
    let (s1, e1) = ret_spec(s, ev);
    (CpuState { ime: true, ..s1 }, e1)
}

pub open spec fn ret_cc_spec(opcode: u8, s: CpuState, ev: Seq<BusEvent>) -> (CpuState, Seq<BusEvent>) {
    if condition(s.regs, opcode_b43(opcode)) {
        let (s1, e1) = ret_spec(s, ev.skip(1));
        (s1, seq![BusEvent::Tick] + e1)
    } else {
        (s, seq![BusEvent::Tick])
    }
}

pub open spec fn ld_u16_a_spec(s: CpuState, ev: Seq<BusEvent>) -> (CpuState, Seq<BusEvent>) {
    (
        with_regs(s, pc_plus(s.regs, 2)),
        imm16_events(s.regs, ev) + seq![BusEvent::Write { address: imm16(ev), data: s.regs.a }],
    )
}

pub open spec fn ld_a_u16_spec(s: CpuState, ev: Seq<BusEvent>) -> (CpuState, Seq<BusEvent>) {
    (
        with_regs(s, Registers { a: rd(ev, 2), ..pc_plus(s.regs, 2) }),
        imm16_events(s.regs, ev) + seq![read_at(imm16(ev), ev, 2)],
    )
}

pub open spec fn jp_spec(s: CpuState, ev: Seq<BusEvent>) -> (CpuState, Seq<BusEvent>) {
    (
        with_regs(s, Registers { pc: imm16(ev), ..s.regs }),
        imm16_events(s.regs, ev) + seq![BusEvent::Tick],
    )
}

pub open spec fn jp_cc_spec(opcode: u8, s: CpuState, ev: Seq<BusEvent>) -> (CpuState, Seq<BusEvent>) {
    if condition(s.regs, opcode_b43(opcode)) {
        jp_spec(s, ev)
    } else {
        skip16_spec(s, ev)
    }
}

pub open spec fn add_sp_i8_spec(s: CpuState, ev: Seq<BusEvent>) -> (CpuState, Seq<BusEvent>) {
    let r1 = pc_plus(s.regs, 1);
    let (sp, f) = sp_offset(r1, rd(ev, 0));
    (with_regs(s, Registers { sp, f, ..r1 }), seq![read_at(s.regs.pc, ev, 0)])
}

pub open spec fn ld_hl_sp_i8_spec(s: CpuState, ev: Seq<BusEvent>) -> (CpuState, Seq<BusEvent>) {
    let r1 = pc_plus(s.regs, 1);
    let (v, f) = sp_offset(r1, rd(ev, 0));
    (with_regs(s, Registers { f, ..with_hl(r1, v) }), seq![read_at(s.regs.pc, ev, 0)])
}

pub open spec fn ld_sp_hl_spec(s: CpuState, ev: Seq<BusEvent>) -> (CpuState, Seq<BusEvent>) {
    (with_regs(s, Registers { sp: hl(s.regs), ..s.regs }), seq![BusEvent::Tick])
}

pub open spec fn ld_u16_sp_spec(s: CpuState, ev: Seq<BusEvent>) -> (CpuState, Seq<BusEvent>) {
    let address = imm16(ev);
    (
        with_regs(s, pc_plus(s.regs, 2)),
        imm16_events(s.regs, ev) + seq![
            BusEvent::Write { address, data: word_lsb(s.regs.sp) },
            BusEvent::Write { address: wrap16(address + 1), data: word_msb(s.regs.sp) },
        ],
    )
}

pub open spec fn rst_spec(opcode: u8, s: CpuState, ev: Seq<BusEvent>) -> (CpuState, Seq<BusEvent>) {
    (
        with_regs(
            s,
            Registers { sp: wrap16(s.regs.sp - 2), pc: (opcode_b543(opcode) * 8) as u16, ..s.regs },
        ),
        seq![BusEvent::Tick] + push_events(s.regs.sp, s.regs.pc),
    )
}

/// The CB-prefixed operations on an operand byte: the new registers and the
/// value to store back, if any.
pub open spec fn cb_operation(cb: u8, r: Registers, v: u8) -> (Registers, Option<u8>) {
    let n = opcode_b543(cb);
    if cb < 0x40 {
        let (res, r1) = rotate(n, r, v);
        (r1, Some(res))
    } else if cb < 0x80 {
        (with_flags(r, !crate::utils::bit_set(v, n as int), false, true, r.f.carry), None)
    } else if cb < 0xC0 {
        (r, Some(v & !(1u8 << n)))
    } else {
        (r, Some(v | (1u8 << n)))
    }
}

/// A CB-prefixed operation `cb` on its operand; the events start after the
/// fetch of `cb`.
pub open spec fn cb_body_spec(cb: u8, s: CpuState, ev: Seq<BusEvent>) -> (CpuState, Seq<BusEvent>) {
    let index = cb % 8;
    let v = operand_value(s.regs, index, ev, 0);
    let (r2, stored) = cb_operation(cb, s.regs, v);
    let events = operand_events(s.regs, index, ev, 0);
    match stored {
        Some(res) => (with_regs(s, store_regs(r2, index, res)), events + store_events(s.regs, index, res)),
        None => (with_regs(s, r2), events),
    }
}

/// A CB-prefixed instruction after its prefix; the events start with the
/// fetch of the second opcode byte.
pub open spec fn cb_spec(s: CpuState, ev: Seq<BusEvent>) -> (CpuState, Seq<BusEvent>) {
    let cb = rd(ev, 0);
    let (s2, e2) = cb_body_spec(cb, with_regs(s, pc_plus(s.regs, 1)), ev.skip(1));
    (s2, seq![read_at(s.regs.pc, ev, 0)] + e2)
}

/// POP reads back, lower byte first, the word that PUSH wrote.
pub proof fn lemma_pop_reads_pushed(sp: u16, value: u16)
    ensures
        ({
            let writes = push_events(sp, value);
            let reads = seq![
                BusEvent::Read { address: writes[1]->Write_address, data: writes[1]->Write_data },
                BusEvent::Read { address: writes[0]->Write_address, data: writes[0]->Write_data },
            ];
            imm16(reads) == value && writes[1]->Write_address == wrap16(sp - 2)
                && writes[0]->Write_address == wrap16(wrap16(sp - 2) + 1)
        }),
{
    crate::utils::lemma_word_bytes_round_trip(value, 0, 0);
}

/// The opcode history holds the ten most recent opcodes at most, the newest
/// last.
pub proof fn lemma_history_bounded(h: Seq<(u16, u8, u8, u8)>, entry: (u16, u8, u8, u8))
    requires
        h.len() <= 10,
    ensures
        history_pushed(h, entry).len() <= 10,
        history_pushed(h, entry).last() == entry,
        h.len() < 10 ==> history_pushed(h, entry).len() == h.len() + 1,
        h.len() == 10 ==> history_pushed(h, entry).subrange(0, 9) == h.subrange(1, 10),
{
    if h.len() == 10 {
        assert(history_pushed(h, entry).subrange(0, 9) =~= h.subrange(1, 10));
    }
}

} // verus!
