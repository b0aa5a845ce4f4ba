//! Mnemonics of the SM83 opcodes, for the debugger's opcode history.
use vstd::prelude::*;

use crate::text::{append_hex_byte, hex_byte_text, hex_digit_text};
use crate::utils::word_from_bytes;

verus! {

/// Mnemonic templates of opcodes 0x00 to 0x3F.
pub open spec fn templates_00_3f(opcode: u8) -> (Seq<char>, u8, Seq<char>) {
    if opcode == 0x00 {
        ("NOP "@, 0, ""@)
    } else if opcode == 0x01 {
        ("LD BC, 0x"@, 2, ""@)
    } else if opcode == 0x02 {
        ("LD (BC), A"@, 0, ""@)
    } else if opcode == 0x03 {
        ("INC BC"@, 0, ""@)
    } else if opcode == 0x04 {
        ("INC B"@, 0, ""@)
    } else if opcode == 0x05 {
        ("DEC B"@, 0, ""@)
    } else if opcode == 0x06 {
        ("LD B, 0x"@, 1, ""@)
    } else if opcode == 0x07 {
        ("RCA "@, 0, ""@)
    } else if opcode == 0x08 {
        ("LD (0x"@, 2, "), SP"@)
    } else if opcode == 0x09 {
        ("ADD HL, BC"@, 0, ""@)
    } else if opcode == 0x0A {
        ("LD A, (BC)"@, 0, ""@)
    } else if opcode == 0x0B {
        ("DEC BC"@, 0, ""@)
    } else if opcode == 0x0C {
        ("INC C"@, 0, ""@)
    } else if opcode == 0x0D {
        ("DEC C"@, 0, ""@)
    } else if opcode == 0x0E {
        ("LD C, 0x"@, 1, ""@)
    } else if opcode == 0x0F {
        ("RCA "@, 0, ""@)
    } else if opcode == 0x10 {
        ("STOP 0x"@, 1, ""@)
    } else if opcode == 0x11 {
        ("LD DE, 0x"@, 2, ""@)
    } else if opcode == 0x12 {
        ("LD (DE), A"@, 0, ""@)
    } else if opcode == 0x13 {
        ("INC DE"@, 0, ""@)
    } else if opcode == 0x14 {
        ("INC D"@, 0, ""@)
    } else if opcode == 0x15 {
        ("DEC D"@, 0, ""@)
    } else if opcode == 0x16 {
        ("LD D, 0x"@, 1, ""@)
    } else if opcode == 0x17 {
        ("RLA "@, 0, ""@)
    } else if opcode == 0x18 {
        ("JR 0x"@, 1, ""@)
    } else if opcode == 0x19 {
        ("ADD HL, DE"@, 0, ""@)
    } else if opcode == 0x1A {
        ("LD A, (DE)"@, 0, ""@)
    } else if opcode == 0x1B {
        ("DEC DE"@, 0, ""@)
    } else if opcode == 0x1C {
        ("INC E"@, 0, ""@)
    } else if opcode == 0x1D {
        ("DEC E"@, 0, ""@)
    } else if opcode == 0x1E {
        ("LD E, 0x"@, 1, ""@)
    } else if opcode == 0x1F {
        ("RRA "@, 0, ""@)
    } else if opcode == 0x20 {
        ("JR NZ, 0x"@, 1, ""@)
    } else if opcode == 0x21 {
        ("LD HL, 0x"@, 2, ""@)
    } else if opcode == 0x22 {
        ("LD (HL), A"@, 0, ""@)
    } else if opcode == 0x23 {
        ("INC HL"@, 0, ""@)
    } else if opcode == 0x24 {
        ("INC H"@, 0, ""@)
    } else if opcode == 0x25 {
        ("DEC H"@, 0, ""@)
    } else if opcode == 0x26 {
        ("LD H, 0x"@, 1, ""@)
    } else if opcode == 0x27 {
        ("DAA "@, 0, ""@)
    } else if opcode == 0x28 {
        ("JR Z, 0x"@, 1, ""@)
    } else if opcode == 0x29 {
        ("ADD HL, HL"@, 0, ""@)
    } else if opcode == 0x2A {
        ("LD A, (HL)"@, 0, ""@)
    } else if opcode == 0x2B {
        ("DEC HL"@, 0, ""@)
    } else if opcode == 0x2C {
        ("INC L"@, 0, ""@)
    } else if opcode == 0x2D {
        ("DEC L"@, 0, ""@)
    } else if opcode == 0x2E {
        ("LD L, 0x"@, 1, ""@)
    } else if opcode == 0x2F {
        ("CPL "@, 0, ""@)
    } else if opcode == 0x30 {
        ("JR NC, 0x"@, 1, ""@)
    } else if opcode == 0x31 {
        ("LD SP, 0x"@, 2, ""@)
    } else if opcode == 0x32 {
        ("LD (HL), A"@, 0, ""@)
    } else if opcode == 0x33 {
        ("INC SP"@, 0, ""@)
    } else if opcode == 0x34 {
        ("INC (HL)"@, 0, ""@)
    } else if opcode == 0x35 {
        ("DEC (HL)"@, 0, ""@)
    } else if opcode == 0x36 {
        ("LD (HL), 0x"@, 1, ""@)
    } else if opcode == 0x37 {
        ("SCF "@, 0, ""@)
    } else if opcode == 0x38 {
        ("JR C, 0x"@, 1, ""@)
    } else if opcode == 0x39 {
        ("ADD HL, SP"@, 0, ""@)
    } else if opcode == 0x3A {
        ("LD A, (HL)"@, 0, ""@)
    } else if opcode == 0x3B {
        ("DEC SP"@, 0, ""@)
    } else if opcode == 0x3C {
        ("INC A"@, 0, ""@)
    } else if opcode == 0x3D {
        ("DEC A"@, 0, ""@)
    } else if opcode == 0x3E {
        ("LD A, 0x"@, 1, ""@)
    } else {
        ("CCF "@, 0, ""@)
    }
}

/// Mnemonic templates of opcodes 0x40 to 0x7F.
pub open spec fn templates_40_7f(opcode: u8) -> (Seq<char>, u8, Seq<char>) {
    if opcode == 0x40 {
        ("LD B, B"@, 0, ""@)
    } else if opcode == 0x41 {
        ("LD B, C"@, 0, ""@)
    } else if opcode == 0x42 {
        ("LD B, D"@, 0, ""@)
    } else if opcode == 0x43 {
        ("LD B, E"@, 0, ""@)
    } else if opcode == 0x44 {
        ("LD B, H"@, 0, ""@)
    } else if opcode == 0x45 {
        ("LD B, L"@, 0, ""@)
    } else if opcode == 0x46 {
        ("LD B, (HL)"@, 0, ""@)
    } else if opcode == 0x47 {
        ("LD B, A"@, 0, ""@)
    } else if opcode == 0x48 {
        ("LD C, B"@, 0, ""@)
    } else if opcode == 0x49 {
        ("LD C, C"@, 0, ""@)
    } else if opcode == 0x4A {
        ("LD C, D"@, 0, ""@)
    } else if opcode == 0x4B {
        ("LD C, E"@, 0, ""@)
    } else if opcode == 0x4C {
        ("LD C, H"@, 0, ""@)
    } else if opcode == 0x4D {
        ("LD C, L"@, 0, ""@)
    } else if opcode == 0x4E {
        ("LD C, (HL)"@, 0, ""@)
    } else if opcode == 0x4F {
        ("LD C, A"@, 0, ""@)
    } else if opcode == 0x50 {
        ("LD D, B"@, 0, ""@)
    } else if opcode == 0x51 {
        ("LD D, C"@, 0, ""@)
    } else if opcode == 0x52 {
        ("LD D, D"@, 0, ""@)
    } else if opcode == 0x53 {
        ("LD D, E"@, 0, ""@)
    } else if opcode == 0x54 {
        ("LD D, H"@, 0, ""@)
    } else if opcode == 0x55 {
        ("LD D, L"@, 0, ""@)
    } else if opcode == 0x56 {
        ("LD D, (HL)"@, 0, ""@)
    } else if opcode == 0x57 {
        ("LD D, A"@, 0, ""@)
    } else if opcode == 0x58 {
        ("LD E, B"@, 0, ""@)
    } else if opcode == 0x59 {
        ("LD E, C"@, 0, ""@)
    } else if opcode == 0x5A {
        ("LD E, D"@, 0, ""@)
    } else if opcode == 0x5B {
        ("LD E, E"@, 0, ""@)
    } else if opcode == 0x5C {
        ("LD E, H"@, 0, ""@)
    } else if opcode == 0x5D {
        ("LD E, L"@, 0, ""@)
    } else if opcode == 0x5E {
        ("LD E, (HL)"@, 0, ""@)
    } else if opcode == 0x5F {
        ("LD E, A"@, 0, ""@)
    } else if opcode == 0x60 {
        ("LD H, B"@, 0, ""@)
    } else if opcode == 0x61 {
        ("LD H, C"@, 0, ""@)
    } else if opcode == 0x62 {
        ("LD H, D"@, 0, ""@)
    } else if opcode == 0x63 {
        ("LD H, E"@, 0, ""@)
    } else if opcode == 0x64 {
        ("LD H, H"@, 0, ""@)
    } else if opcode == 0x65 {
        ("LD H, L"@, 0, ""@)
    } else if opcode == 0x66 {
        ("LD H, (HL)"@, 0, ""@)
    } else if opcode == 0x67 {
        ("LD H, A"@, 0, ""@)
    } else if opcode == 0x68 {
        ("LD L, B"@, 0, ""@)
    } else if opcode == 0x69 {
        ("LD L, C"@, 0, ""@)
    } else if opcode == 0x6A {
        ("LD L, D"@, 0, ""@)
    } else if opcode == 0x6B {
        ("LD L, E"@, 0, ""@)
    } else if opcode == 0x6C {
        ("LD L, H"@, 0, ""@)
    } else if opcode == 0x6D {
        ("LD L, L"@, 0, ""@)
    } else if opcode == 0x6E {
        ("LD L, (HL)"@, 0, ""@)
    } else if opcode == 0x6F {
        ("LD L, A"@, 0, ""@)
    } else if opcode == 0x70 {
        ("LD (HL), B"@, 0, ""@)
    } else if opcode == 0x71 {
        ("LD (HL), C"@, 0, ""@)
    } else if opcode == 0x72 {
        ("LD (HL), D"@, 0, ""@)
    } else if opcode == 0x73 {
        ("LD (HL), E"@, 0, ""@)
    } else if opcode == 0x74 {
        ("LD (HL), H"@, 0, ""@)
    } else if opcode == 0x75 {
        ("LD (HL), L"@, 0, ""@)
    } else if opcode == 0x76 {
        ("HALT "@, 0, ""@)
    } else if opcode == 0x77 {
        ("LD (HL), A"@, 0, ""@)
    } else if opcode == 0x78 {
        ("LD A, B"@, 0, ""@)
    } else if opcode == 0x79 {
        ("LD A, C"@, 0, ""@)
    } else if opcode == 0x7A {
        ("LD A, D"@, 0, ""@)
    } else if opcode == 0x7B {
        ("LD A, E"@, 0, ""@)
    } else if opcode == 0x7C {
        ("LD A, H"@, 0, ""@)
    } else if opcode == 0x7D {
        ("LD A, L"@, 0, ""@)
    } else if opcode == 0x7E {
        ("LD A, (HL)"@, 0, ""@)
    } else {
        ("LD A, A"@, 0, ""@)
    }
}

/// Mnemonic templates of opcodes 0x80 to 0xBF.
pub open spec fn templates_80_bf(opcode: u8) -> (Seq<char>, u8, Seq<char>) {
    if opcode == 0x80 {
        ("ADD A, B"@, 0, ""@)
    } else if opcode == 0x81 {
        ("ADD A, C"@, 0, ""@)
    } else if opcode == 0x82 {
        ("ADD A, D"@, 0, ""@)
    } else if opcode == 0x83 {
        ("ADD A, E"@, 0, ""@)
    } else if opcode == 0x84 {
        ("ADD A, H"@, 0, ""@)
    } else if opcode == 0x85 {
        ("ADD A, L"@, 0, ""@)
    } else if opcode == 0x86 {
        ("ADD A, (HL)"@, 0, ""@)
    } else if opcode == 0x87 {
        ("ADD A, A"@, 0, ""@)
    } else if opcode == 0x88 {
        ("ADC A, B"@, 0, ""@)
    } else if opcode == 0x89 {
        ("ADC A, C"@, 0, ""@)
    } else if opcode == 0x8A {
        ("ADC A, D"@, 0, ""@)
    } else if opcode == 0x8B {
        ("ADC A, E"@, 0, ""@)
    } else if opcode == 0x8C {
        ("ADC A, H"@, 0, ""@)
    } else if opcode == 0x8D {
        ("ADC A, L"@, 0, ""@)
    } else if opcode == 0x8E {
        ("ADC A, (HL)"@, 0, ""@)
    } else if opcode == 0x8F {
        ("ADC A, A"@, 0, ""@)
    } else if opcode == 0x90 {
        ("SUB B"@, 0, ""@)
    } else if opcode == 0x91 {
        ("SUB C"@, 0, ""@)
    } else if opcode == 0x92 {
        ("SUB D"@, 0, ""@)
    } else if opcode == 0x93 {
        ("SUB E"@, 0, ""@)
    } else if opcode == 0x94 {
        ("SUB H"@, 0, ""@)
    } else if opcode == 0x95 {
        ("SUB L"@, 0, ""@)
    } else if opcode == 0x96 {
        ("SUB (HL)"@, 0, ""@)
    } else if opcode == 0x97 {
        ("SUB A"@, 0, ""@)
    } else if opcode == 0x98 {
        ("SBC A, B"@, 0, ""@)
    } else if opcode == 0x99 {
        ("SBC A, C"@, 0, ""@)
    } else if opcode == 0x9A {
        ("SBC A, D"@, 0, ""@)
    } else if opcode == 0x9B {
        ("SBC A, E"@, 0, ""@)
    } else if opcode == 0x9C {
        ("SBC A, H"@, 0, ""@)
    } else if opcode == 0x9D {
        ("SBC A, L"@, 0, ""@)
    } else if opcode == 0x9E {
        ("SBC A, (HL)"@, 0, ""@)
    } else if opcode == 0x9F {
        ("SBC A, A"@, 0, ""@)
    } else if opcode == 0xA0 {
        ("AND B"@, 0, ""@)
    } else if opcode == 0xA1 {
        ("AND C"@, 0, ""@)
    } else if opcode == 0xA2 {
        ("AND D"@, 0, ""@)
    } else if opcode == 0xA3 {
        ("AND E"@, 0, ""@)
    } else if opcode == 0xA4 {
        ("AND H"@, 0, ""@)
    } else if opcode == 0xA5 {
        ("AND L"@, 0, ""@)
    } else if opcode == 0xA6 {
        ("AND (HL)"@, 0, ""@)
    } else if opcode == 0xA7 {
        ("AND A"@, 0, ""@)
    } else if opcode == 0xA8 {
        ("XOR B"@, 0, ""@)
    } else if opcode == 0xA9 {
        ("XOR C"@, 0, ""@)
    } else if opcode == 0xAA {
        ("XOR D"@, 0, ""@)
    } else if opcode == 0xAB {
        ("XOR E"@, 0, ""@)
    } else if opcode == 0xAC {
        ("XOR H"@, 0, ""@)
    } else if opcode == 0xAD {
        ("XOR L"@, 0, ""@)
    } else if opcode == 0xAE {
        ("XOR (HL)"@, 0, ""@)
    } else if opcode == 0xAF {
        ("XOR A"@, 0, ""@)
    } else if opcode == 0xB0 {
        ("OR B"@, 0, ""@)
    } else if opcode == 0xB1 {
        ("OR C"@, 0, ""@)
    } else if opcode == 0xB2 {
        ("OR D"@, 0, ""@)
    } else if opcode == 0xB3 {
        ("OR E"@, 0, ""@)
    } else if opcode == 0xB4 {
        ("OR H"@, 0, ""@)
    } else if opcode == 0xB5 {
        ("OR L"@, 0, ""@)
    } else if opcode == 0xB6 {
        ("OR (HL)"@, 0, ""@)
    } else if opcode == 0xB7 {
        ("OR A"@, 0, ""@)
    } else if opcode == 0xB8 {
        ("CP B"@, 0, ""@)
    } else if opcode == 0xB9 {
        ("CP C"@, 0, ""@)
    } else if opcode == 0xBA {
        ("CP D"@, 0, ""@)
    } else if opcode == 0xBB {
        ("CP E"@, 0, ""@)
    } else if opcode == 0xBC {
        ("CP H"@, 0, ""@)
    } else if opcode == 0xBD {
        ("CP L"@, 0, ""@)
    } else if opcode == 0xBE {
        ("CP (HL)"@, 0, ""@)
    } else {
        ("CP A"@, 0, ""@)
    }
}

/// Mnemonic templates of opcodes 0xC0 to 0xFF.
pub open spec fn templates_c0_ff(opcode: u8) -> (Seq<char>, u8, Seq<char>) {
    if opcode == 0xC0 {
        ("RET NZ"@, 0, ""@)
    } else if opcode == 0xC1 {
        ("POP BC"@, 0, ""@)
    } else if opcode == 0xC2 {
        ("JP NZ, (0x"@, 2, ")"@)
    } else if opcode == 0xC3 {
        ("JP (0x"@, 2, ")"@)
    } else if opcode == 0xC4 {
        ("CALL NZ, (0x"@, 2, ")"@)
    } else if opcode == 0xC5 {
        ("PUSH BC"@, 0, ""@)
    } else if opcode == 0xC6 {
        ("ADD A, 0x"@, 1, ""@)
    } else if opcode == 0xC7 {
        ("RST 0x00"@, 0, ""@)
    } else if opcode == 0xC8 {
        ("RET Z"@, 0, ""@)
    } else if opcode == 0xC9 {
        ("RET "@, 0, ""@)
    } else if opcode == 0xCA {
        ("JP Z, (0x"@, 2, ")"@)
    } else if opcode == 0xCB {
        ("PREFIX "@, 0, ""@)
    } else if opcode == 0xCC {
        ("CALL Z, (0x"@, 2, ")"@)
    } else if opcode == 0xCD {
        ("CALL (0x"@, 2, ")"@)
    } else if opcode == 0xCE {
        ("ADC A, 0x"@, 1, ""@)
    } else if opcode == 0xCF {
        ("RST 0x08"@, 0, ""@)
    } else if opcode == 0xD0 {
        ("RET NC"@, 0, ""@)
    } else if opcode == 0xD1 {
        ("POP DE"@, 0, ""@)
    } else if opcode == 0xD2 {
        ("JP NC, (0x"@, 2, ")"@)
    } else if opcode == 0xD3 {
        ("ILLEGAL_D3 "@, 0, ""@)
    } else if opcode == 0xD4 {
        ("CALL NC, (0x"@, 2, ")"@)
    } else if opcode == 0xD5 {
        ("PUSH DE"@, 0, ""@)
    } else if opcode == 0xD6 {
        ("SUB 0x"@, 1, ""@)
    } else if opcode == 0xD7 {
        ("RST 0x10"@, 0, ""@)
    } else if opcode == 0xD8 {
        ("RET C"@, 0, ""@)
    } else if opcode == 0xD9 {
        ("RETI "@, 0, ""@)
    } else if opcode == 0xDA {
        ("JP C, (0x"@, 2, ")"@)
    } else if opcode == 0xDB {
        ("ILLEGAL_DB "@, 0, ""@)
    } else if opcode == 0xDC {
        ("CALL C, (0x"@, 2, ")"@)
    } else if opcode == 0xDD {
        ("ILLEGAL_DD "@, 0, ""@)
    } else if opcode == 0xDE {
        ("SBC A, 0x"@, 1, ""@)
    } else if opcode == 0xDF {
        ("RST 0x18"@, 0, ""@)
    } else if opcode == 0xE0 {
        ("LDH (0xFF"@, 1, "), A"@)
    } else if opcode == 0xE1 {
        ("POP HL"@, 0, ""@)
    } else if opcode == 0xE2 {
        ("LD C, A"@, 0, ""@)
    } else if opcode == 0xE3 {
        ("ILLEGAL_E3 "@, 0, ""@)
    } else if opcode == 0xE4 {
        ("ILLEGAL_E4 "@, 0, ""@)
    } else if opcode == 0xE5 {
        ("PUSH HL"@, 0, ""@)
    } else if opcode == 0xE6 {
        ("AND 0x"@, 1, ""@)
    } else if opcode == 0xE7 {
        ("RST 0x20"@, 0, ""@)
    } else if opcode == 0xE8 {
        ("ADD SP, 0x"@, 1, ""@)
    } else if opcode == 0xE9 {
        ("JP HL"@, 0, ""@)
    } else if opcode == 0xEA {
        ("LD (0x"@, 2, "), A"@)
    } else if opcode == 0xEB {
        ("ILLEGAL_EB "@, 0, ""@)
    } else if opcode == 0xEC {
        ("ILLEGAL_EC "@, 0, ""@)
    } else if opcode == 0xED {
        ("ILLEGAL_ED "@, 0, ""@)
    } else if opcode == 0xEE {
        ("XOR 0x"@, 1, ""@)
    } else if opcode == 0xEF {
        ("RST 0x28"@, 0, ""@)
    } else if opcode == 0xF0 {
        ("LDH A, (0xFF"@, 1, ")"@)
    } else if opcode == 0xF1 {
        ("POP AF"@, 0, ""@)
    } else if opcode == 0xF2 {
        ("LD A, C"@, 0, ""@)
    } else if opcode == 0xF3 {
        ("DI "@, 0, ""@)
    } else if opcode == 0xF4 {
        ("ILLEGAL_F4 "@, 0, ""@)
    } else if opcode == 0xF5 {
        ("PUSH AF"@, 0, ""@)
    } else if opcode == 0xF6 {
        ("OR 0x"@, 1, ""@)
    } else if opcode == 0xF7 {
        ("RST 0x30"@, 0, ""@)
    } else if opcode == 0xF8 {
        ("LD HL, SP, 0x"@, 1, ""@)
    } else if opcode == 0xF9 {
        ("LD SP, HL"@, 0, ""@)
    } else if opcode == 0xFA {
        ("LD A, (0x"@, 2, ")"@)
    } else if opcode == 0xFB {
        ("EI "@, 0, ""@)
    } else if opcode == 0xFC {
        ("ILLEGAL_FC "@, 0, ""@)
    } else if opcode == 0xFD {
        ("ILLEGAL_FD "@, 0, ""@)
    } else if opcode == 0xFE {
        ("CP 0x"@, 1, ""@)
    } else {
        ("RST 0x38"@, 0, ""@)
    }
}

/// The mnemonic of an opcode as a template: the text before the operand,
/// which operand (0 none, 1 the byte after the opcode, 2 the little-endian
/// word after it) and the text after it.
pub open spec fn opcode_template(opcode: u8) -> (Seq<char>, u8, Seq<char>) {
    if opcode < 0x40 {
        templates_00_3f(opcode)
    } else if opcode < 0x80 {
        templates_40_7f(opcode)
    } else if opcode < 0xC0 {
        templates_80_bf(opcode)
    } else {
        templates_c0_ff(opcode)
    }
}

/// The operand of a template, in upper-case hexadecimal.
pub open spec fn operand_text(operand: u8, arg1: u8, arg2: u8) -> Seq<char> {
    if operand == 0 {
        Seq::empty()
    } else if operand == 1 {
        hex_byte_text(arg1)
    } else {
        hex_byte_text(arg2) + hex_byte_text(arg1)
    }
}

/// The mnemonic of `opcode` followed by the bytes `arg1` and `arg2`.
pub open spec fn opcode_text(opcode: u8, arg1: u8, arg2: u8) -> Seq<char> {
    let (before, operand, after) = opcode_template(opcode);
    before + operand_text(operand, arg1, arg2) + after
}

fn template_00_3f(opcode: u8) -> (template: (&'static str, u8, &'static str))
    requires
        0x00 <= opcode <= 0x3F,
    ensures
        (template.0@, template.1, template.2@) == templates_00_3f(opcode),
{
    if opcode == 0x00 {
        ("NOP ", 0, "")
    } else if opcode == 0x01 {
        ("LD BC, 0x", 2, "")
    } else if opcode == 0x02 {
        ("LD (BC), A", 0, "")
    } else if opcode == 0x03 {
        ("INC BC", 0, "")
    } else if opcode == 0x04 {
        ("INC B", 0, "")
    } else if opcode == 0x05 {
        ("DEC B", 0, "")
    } else if opcode == 0x06 {
        ("LD B, 0x", 1, "")
    } else if opcode == 0x07 {
        ("RCA ", 0, "")
    } else if opcode == 0x08 {
        ("LD (0x", 2, "), SP")
    } else if opcode == 0x09 {
        ("ADD HL, BC", 0, "")
    } else if opcode == 0x0A {
        ("LD A, (BC)", 0, "")
    } else if opcode == 0x0B {
        ("DEC BC", 0, "")
    } else if opcode == 0x0C {
        ("INC C", 0, "")
    } else if opcode == 0x0D {
        ("DEC C", 0, "")
    } else if opcode == 0x0E {
        ("LD C, 0x", 1, "")
    } else if opcode == 0x0F {
        ("RCA ", 0, "")
    } else if opcode == 0x10 {
        ("STOP 0x", 1, "")
    } else if opcode == 0x11 {
        ("LD DE, 0x", 2, "")
    } else if opcode == 0x12 {
        ("LD (DE), A", 0, "")
    } else if opcode == 0x13 {
        ("INC DE", 0, "")
    } else if opcode == 0x14 {
        ("INC D", 0, "")
    } else if opcode == 0x15 {
        ("DEC D", 0, "")
    } else if opcode == 0x16 {
        ("LD D, 0x", 1, "")
    } else if opcode == 0x17 {
        ("RLA ", 0, "")
    } else if opcode == 0x18 {
        ("JR 0x", 1, "")
    } else if opcode == 0x19 {
        ("ADD HL, DE", 0, "")
    } else if opcode == 0x1A {
        ("LD A, (DE)", 0, "")
    } else if opcode == 0x1B {
        ("DEC DE", 0, "")
    } else if opcode == 0x1C {
        ("INC E", 0, "")
    } else if opcode == 0x1D {
        ("DEC E", 0, "")
    } else if opcode == 0x1E {
        ("LD E, 0x", 1, "")
    } else if opcode == 0x1F {
        ("RRA ", 0, "")
    } else if opcode == 0x20 {
        ("JR NZ, 0x", 1, "")
    } else if opcode == 0x21 {
        ("LD HL, 0x", 2, "")
    } else if opcode == 0x22 {
        ("LD (HL), A", 0, "")
    } else if opcode == 0x23 {
        ("INC HL", 0, "")
    } else if opcode == 0x24 {
        ("INC H", 0, "")
    } else if opcode == 0x25 {
        ("DEC H", 0, "")
    } else if opcode == 0x26 {
        ("LD H, 0x", 1, "")
    } else if opcode == 0x27 {
        ("DAA ", 0, "")
    } else if opcode == 0x28 {
        ("JR Z, 0x", 1, "")
    } else if opcode == 0x29 {
        ("ADD HL, HL", 0, "")
    } else if opcode == 0x2A {
        ("LD A, (HL)", 0, "")
    } else if opcode == 0x2B {
        ("DEC HL", 0, "")
    } else if opcode == 0x2C {
        ("INC L", 0, "")
    } else if opcode == 0x2D {
        ("DEC L", 0, "")
    } else if opcode == 0x2E {
        ("LD L, 0x", 1, "")
    } else if opcode == 0x2F {
        ("CPL ", 0, "")
    } else if opcode == 0x30 {
        ("JR NC, 0x", 1, "")
    } else if opcode == 0x31 {
        ("LD SP, 0x", 2, "")
    } else if opcode == 0x32 {
        ("LD (HL), A", 0, "")
    } else if opcode == 0x33 {
        ("INC SP", 0, "")
    } else if opcode == 0x34 {
        ("INC (HL)", 0, "")
    } else if opcode == 0x35 {
        ("DEC (HL)", 0, "")
    } else if opcode == 0x36 {
        ("LD (HL), 0x", 1, "")
    } else if opcode == 0x37 {
        ("SCF ", 0, "")
    } else if opcode == 0x38 {
        ("JR C, 0x", 1, "")
    } else if opcode == 0x39 {
        ("ADD HL, SP", 0, "")
    } else if opcode == 0x3A {
        ("LD A, (HL)", 0, "")
    } else if opcode == 0x3B {
        ("DEC SP", 0, "")
    } else if opcode == 0x3C {
        ("INC A", 0, "")
    } else if opcode == 0x3D {
        ("DEC A", 0, "")
    } else if opcode == 0x3E {
        ("LD A, 0x", 1, "")
    } else {
        ("CCF ", 0, "")
    }
}

fn template_40_7f(opcode: u8) -> (template: (&'static str, u8, &'static str))
    requires
        0x40 <= opcode <= 0x7F,
    ensures
        (template.0@, template.1, template.2@) == templates_40_7f(opcode),
{
    if opcode == 0x40 {
        ("LD B, B", 0, "")
    } else if opcode == 0x41 {
        ("LD B, C", 0, "")
    } else if opcode == 0x42 {
        ("LD B, D", 0, "")
    } else if opcode == 0x43 {
        ("LD B, E", 0, "")
    } else if opcode == 0x44 {
        ("LD B, H", 0, "")
    } else if opcode == 0x45 {
        ("LD B, L", 0, "")
    } else if opcode == 0x46 {
        ("LD B, (HL)", 0, "")
    } else if opcode == 0x47 {
        ("LD B, A", 0, "")
    } else if opcode == 0x48 {
        ("LD C, B", 0, "")
    } else if opcode == 0x49 {
        ("LD C, C", 0, "")
    } else if opcode == 0x4A {
        ("LD C, D", 0, "")
    } else if opcode == 0x4B {
        ("LD C, E", 0, "")
    } else if opcode == 0x4C {
        ("LD C, H", 0, "")
    } else if opcode == 0x4D {
        ("LD C, L", 0, "")
    } else if opcode == 0x4E {
        ("LD C, (HL)", 0, "")
    } else if opcode == 0x4F {
        ("LD C, A", 0, "")
    } else if opcode == 0x50 {
        ("LD D, B", 0, "")
    } else if opcode == 0x51 {
        ("LD D, C", 0, "")
    } else if opcode == 0x52 {
        ("LD D, D", 0, "")
    } else if opcode == 0x53 {
        ("LD D, E", 0, "")
    } else if opcode == 0x54 {
        ("LD D, H", 0, "")
    } else if opcode == 0x55 {
        ("LD D, L", 0, "")
    } else if opcode == 0x56 {
        ("LD D, (HL)", 0, "")
    } else if opcode == 0x57 {
        ("LD D, A", 0, "")
    } else if opcode == 0x58 {
        ("LD E, B", 0, "")
    } else if opcode == 0x59 {
        ("LD E, C", 0, "")
    } else if opcode == 0x5A {
        ("LD E, D", 0, "")
    } else if opcode == 0x5B {
        ("LD E, E", 0, "")
    } else if opcode == 0x5C {
        ("LD E, H", 0, "")
    } else if opcode == 0x5D {
        ("LD E, L", 0, "")
    } else if opcode == 0x5E {
        ("LD E, (HL)", 0, "")
    } else if opcode == 0x5F {
        ("LD E, A", 0, "")
    } else if opcode == 0x60 {
        ("LD H, B", 0, "")
    } else if opcode == 0x61 {
        ("LD H, C", 0, "")
    } else if opcode == 0x62 {
        ("LD H, D", 0, "")
    } else if opcode == 0x63 {
        ("LD H, E", 0, "")
    } else if opcode == 0x64 {
        ("LD H, H", 0, "")
    } else if opcode == 0x65 {
        ("LD H, L", 0, "")
    } else if opcode == 0x66 {
        ("LD H, (HL)", 0, "")
    } else if opcode == 0x67 {
        ("LD H, A", 0, "")
    } else if opcode == 0x68 {
        ("LD L, B", 0, "")
    } else if opcode == 0x69 {
        ("LD L, C", 0, "")
    } else if opcode == 0x6A {
        ("LD L, D", 0, "")
    } else if opcode == 0x6B {
        ("LD L, E", 0, "")
    } else if opcode == 0x6C {
        ("LD L, H", 0, "")
    } else if opcode == 0x6D {
        ("LD L, L", 0, "")
    } else if opcode == 0x6E {
        ("LD L, (HL)", 0, "")
    } else if opcode == 0x6F {
        ("LD L, A", 0, "")
    } else if opcode == 0x70 {
        ("LD (HL), B", 0, "")
    } else if opcode == 0x71 {
        ("LD (HL), C", 0, "")
    } else if opcode == 0x72 {
        ("LD (HL), D", 0, "")
    } else if opcode == 0x73 {
        ("LD (HL), E", 0, "")
    } else if opcode == 0x74 {
        ("LD (HL), H", 0, "")
    } else if opcode == 0x75 {
        ("LD (HL), L", 0, "")
    } else if opcode == 0x76 {
        ("HALT ", 0, "")
    } else if opcode == 0x77 {
        ("LD (HL), A", 0, "")
    } else if opcode == 0x78 {
        ("LD A, B", 0, "")
    } else if opcode == 0x79 {
        ("LD A, C", 0, "")
    } else if opcode == 0x7A {
        ("LD A, D", 0, "")
    } else if opcode == 0x7B {
        ("LD A, E", 0, "")
    } else if opcode == 0x7C {
        ("LD A, H", 0, "")
    } else if opcode == 0x7D {
        ("LD A, L", 0, "")
    } else if opcode == 0x7E {
        ("LD A, (HL)", 0, "")
    } else {
        ("LD A, A", 0, "")
    }
}

fn template_80_bf(opcode: u8) -> (template: (&'static str, u8, &'static str))
    requires
        0x80 <= opcode <= 0xBF,
    ensures
        (template.0@, template.1, template.2@) == templates_80_bf(opcode),
{
    if opcode == 0x80 {
        ("ADD A, B", 0, "")
    } else if opcode == 0x81 {
        ("ADD A, C", 0, "")
    } else if opcode == 0x82 {
        ("ADD A, D", 0, "")
    } else if opcode == 0x83 {
        ("ADD A, E", 0, "")
    } else if opcode == 0x84 {
        ("ADD A, H", 0, "")
    } else if opcode == 0x85 {
        ("ADD A, L", 0, "")
    } else if opcode == 0x86 {
        ("ADD A, (HL)", 0, "")
    } else if opcode == 0x87 {
        ("ADD A, A", 0, "")
    } else if opcode == 0x88 {
        ("ADC A, B", 0, "")
    } else if opcode == 0x89 {
        ("ADC A, C", 0, "")
    } else if opcode == 0x8A {
        ("ADC A, D", 0, "")
    } else if opcode == 0x8B {
        ("ADC A, E", 0, "")
    } else if opcode == 0x8C {
        ("ADC A, H", 0, "")
    } else if opcode == 0x8D {
        ("ADC A, L", 0, "")
    } else if opcode == 0x8E {
        ("ADC A, (HL)", 0, "")
    } else if opcode == 0x8F {
        ("ADC A, A", 0, "")
    } else if opcode == 0x90 {
        ("SUB B", 0, "")
    } else if opcode == 0x91 {
        ("SUB C", 0, "")
    } else if opcode == 0x92 {
        ("SUB D", 0, "")
    } else if opcode == 0x93 {
        ("SUB E", 0, "")
    } else if opcode == 0x94 {
        ("SUB H", 0, "")
    } else if opcode == 0x95 {
        ("SUB L", 0, "")
    } else if opcode == 0x96 {
        ("SUB (HL)", 0, "")
    } else if opcode == 0x97 {
        ("SUB A", 0, "")
    } else if opcode == 0x98 {
        ("SBC A, B", 0, "")
    } else if opcode == 0x99 {
        ("SBC A, C", 0, "")
    } else if opcode == 0x9A {
        ("SBC A, D", 0, "")
    } else if opcode == 0x9B {
        ("SBC A, E", 0, "")
    } else if opcode == 0x9C {
        ("SBC A, H", 0, "")
    } else if opcode == 0x9D {
        ("SBC A, L", 0, "")
    } else if opcode == 0x9E {
        ("SBC A, (HL)", 0, "")
    } else if opcode == 0x9F {
        ("SBC A, A", 0, "")
    } else if opcode == 0xA0 {
        ("AND B", 0, "")
    } else if opcode == 0xA1 {
        ("AND C", 0, "")
    } else if opcode == 0xA2 {
        ("AND D", 0, "")
    } else if opcode == 0xA3 {
        ("AND E", 0, "")
    } else if opcode == 0xA4 {
        ("AND H", 0, "")
    } else if opcode == 0xA5 {
        ("AND L", 0, "")
    } else if opcode == 0xA6 {
        ("AND (HL)", 0, "")
    } else if opcode == 0xA7 {
        ("AND A", 0, "")
    } else if opcode == 0xA8 {
        ("XOR B", 0, "")
    } else if opcode == 0xA9 {
        ("XOR C", 0, "")
    } else if opcode == 0xAA {
        ("XOR D", 0, "")
    } else if opcode == 0xAB {
        ("XOR E", 0, "")
    } else if opcode == 0xAC {
        ("XOR H", 0, "")
    } else if opcode == 0xAD {
        ("XOR L", 0, "")
    } else if opcode == 0xAE {
        ("XOR (HL)", 0, "")
    } else if opcode == 0xAF {
        ("XOR A", 0, "")
    } else if opcode == 0xB0 {
        ("OR B", 0, "")
    } else if opcode == 0xB1 {
        ("OR C", 0, "")
    } else if opcode == 0xB2 {
        ("OR D", 0, "")
    } else if opcode == 0xB3 {
        ("OR E", 0, "")
    } else if opcode == 0xB4 {
        ("OR H", 0, "")
    } else if opcode == 0xB5 {
        ("OR L", 0, "")
    } else if opcode == 0xB6 {
        ("OR (HL)", 0, "")
    } else if opcode == 0xB7 {
        ("OR A", 0, "")
    } else if opcode == 0xB8 {
        ("CP B", 0, "")
    } else if opcode == 0xB9 {
        ("CP C", 0, "")
    } else if opcode == 0xBA {
        ("CP D", 0, "")
    } else if opcode == 0xBB {
        ("CP E", 0, "")
    } else if opcode == 0xBC {
        ("CP H", 0, "")
    } else if opcode == 0xBD {
        ("CP L", 0, "")
    } else if opcode == 0xBE {
        ("CP (HL)", 0, "")
    } else {
        ("CP A", 0, "")
    }
}

fn template_c0_ff(opcode: u8) -> (template: (&'static str, u8, &'static str))
    requires
        0xC0 <= opcode <= 0xFF,
    ensures
        (template.0@, template.1, template.2@) == templates_c0_ff(opcode),
{
    if opcode == 0xC0 {
        ("RET NZ", 0, "")
    } else if opcode == 0xC1 {
        ("POP BC", 0, "")
    } else if opcode == 0xC2 {
        ("JP NZ, (0x", 2, ")")
    } else if opcode == 0xC3 {
        ("JP (0x", 2, ")")
    } else if opcode == 0xC4 {
        ("CALL NZ, (0x", 2, ")")
    } else if opcode == 0xC5 {
        ("PUSH BC", 0, "")
    } else if opcode == 0xC6 {
        ("ADD A, 0x", 1, "")
    } else if opcode == 0xC7 {
        ("RST 0x00", 0, "")
    } else if opcode == 0xC8 {
        ("RET Z", 0, "")
    } else if opcode == 0xC9 {
        ("RET ", 0, "")
    } else if opcode == 0xCA {
        ("JP Z, (0x", 2, ")")
    } else if opcode == 0xCB {
        ("PREFIX ", 0, "")
    } else if opcode == 0xCC {
        ("CALL Z, (0x", 2, ")")
    } else if opcode == 0xCD {
        ("CALL (0x", 2, ")")
    } else if opcode == 0xCE {
        ("ADC A, 0x", 1, "")
    } else if opcode == 0xCF {
        ("RST 0x08", 0, "")
    } else if opcode == 0xD0 {
        ("RET NC", 0, "")
    } else if opcode == 0xD1 {
        ("POP DE", 0, "")
    } else if opcode == 0xD2 {
        ("JP NC, (0x", 2, ")")
    } else if opcode == 0xD3 {
        ("ILLEGAL_D3 ", 0, "")
    } else if opcode == 0xD4 {
        ("CALL NC, (0x", 2, ")")
    } else if opcode == 0xD5 {
        ("PUSH DE", 0, "")
    } else if opcode == 0xD6 {
        ("SUB 0x", 1, "")
    } else if opcode == 0xD7 {
        ("RST 0x10", 0, "")
    } else if opcode == 0xD8 {
        ("RET C", 0, "")
    } else if opcode == 0xD9 {
        ("RETI ", 0, "")
    } else if opcode == 0xDA {
        ("JP C, (0x", 2, ")")
    } else if opcode == 0xDB {
        ("ILLEGAL_DB ", 0, "")
    } else if opcode == 0xDC {
        ("CALL C, (0x", 2, ")")
    } else if opcode == 0xDD {
        ("ILLEGAL_DD ", 0, "")
    } else if opcode == 0xDE {
        ("SBC A, 0x", 1, "")
    } else if opcode == 0xDF {
        ("RST 0x18", 0, "")
    } else if opcode == 0xE0 {
        ("LDH (0xFF", 1, "), A")
    } else if opcode == 0xE1 {
        ("POP HL", 0, "")
    } else if opcode == 0xE2 {
        ("LD C, A", 0, "")
    } else if opcode == 0xE3 {
        ("ILLEGAL_E3 ", 0, "")
    } else if opcode == 0xE4 {
        ("ILLEGAL_E4 ", 0, "")
    } else if opcode == 0xE5 {
        ("PUSH HL", 0, "")
    } else if opcode == 0xE6 {
        ("AND 0x", 1, "")
    } else if opcode == 0xE7 {
        ("RST 0x20", 0, "")
    } else if opcode == 0xE8 {
        ("ADD SP, 0x", 1, "")
    } else if opcode == 0xE9 {
        ("JP HL", 0, "")
    } else if opcode == 0xEA {
        ("LD (0x", 2, "), A")
    } else if opcode == 0xEB {
        ("ILLEGAL_EB ", 0, "")
    } else if opcode == 0xEC {
        ("ILLEGAL_EC ", 0, "")
    } else if opcode == 0xED {
        ("ILLEGAL_ED ", 0, "")
    } else if opcode == 0xEE {
        ("XOR 0x", 1, "")
    } else if opcode == 0xEF {
        ("RST 0x28", 0, "")
    } else if opcode == 0xF0 {
        ("LDH A, (0xFF", 1, ")")
    } else if opcode == 0xF1 {
        ("POP AF", 0, "")
    } else if opcode == 0xF2 {
        ("LD A, C", 0, "")
    } else if opcode == 0xF3 {
        ("DI ", 0, "")
    } else if opcode == 0xF4 {
        ("ILLEGAL_F4 ", 0, "")
    } else if opcode == 0xF5 {
        ("PUSH AF", 0, "")
    } else if opcode == 0xF6 {
        ("OR 0x", 1, "")
    } else if opcode == 0xF7 {
        ("RST 0x30", 0, "")
    } else if opcode == 0xF8 {
        ("LD HL, SP, 0x", 1, "")
    } else if opcode == 0xF9 {
        ("LD SP, HL", 0, "")
    } else if opcode == 0xFA {
        ("LD A, (0x", 2, ")")
    } else if opcode == 0xFB {
        ("EI ", 0, "")
    } else if opcode == 0xFC {
        ("ILLEGAL_FC ", 0, "")
    } else if opcode == 0xFD {
        ("ILLEGAL_FD ", 0, "")
    } else if opcode == 0xFE {
        ("CP 0x", 1, "")
    } else {
        ("RST 0x38", 0, "")
    }
}

/// The opcodes followed by a 16-bit immediate operand.
pub open spec fn takes_word_operand(opcode: u8) -> bool {
    opcode == 0x01 || opcode == 0x08 || opcode == 0x11 || opcode == 0x21 || opcode == 0x31
        || opcode == 0xC2 || opcode == 0xC3 || opcode == 0xC4 || opcode == 0xCA || opcode == 0xCC
        || opcode == 0xCD || opcode == 0xD2 || opcode == 0xD4 || opcode == 0xDA || opcode == 0xDC
        || opcode == 0xEA || opcode == 0xFA
}

/// The opcodes followed by an 8-bit immediate operand.
pub open spec fn takes_byte_operand(opcode: u8) -> bool {
    opcode == 0x06 || opcode == 0x0E || opcode == 0x10 || opcode == 0x16 || opcode == 0x18
        || opcode == 0x1E || opcode == 0x20 || opcode == 0x26 || opcode == 0x28 || opcode == 0x2E
        || opcode == 0x30 || opcode == 0x36 || opcode == 0x38 || opcode == 0x3E || opcode == 0xC6
        || opcode == 0xCE || opcode == 0xD6 || opcode == 0xDE || opcode == 0xE0 || opcode == 0xE6
        || opcode == 0xE8 || opcode == 0xEE || opcode == 0xF0 || opcode == 0xF6 || opcode == 0xF8
        || opcode == 0xFE
}

/// A 16-bit value in four upper-case hexadecimal digits.
pub open spec fn hex_word_text(w: u16) -> Seq<char> {
    hex_digit_text((w / 4096) as nat) + hex_digit_text((w / 256 % 16) as nat) + hex_digit_text(
        (w / 16 % 16) as nat,
    ) + hex_digit_text((w % 16) as nat)
}

/// Which opcodes take which immediate operand.
pub proof fn lemma_opcode_operands(opcode: u8)
    ensures
        opcode_template(opcode).1 == if takes_word_operand(opcode) {
            2u8
        } else if takes_byte_operand(opcode) {
            1u8
        } else {
            0u8
        },
{
}

/// The disassembled text of an opcode: an opcode without an immediate
/// operand reads the same whatever bytes follow it; one with a byte operand
/// shows the next byte in two hexadecimal digits; one with a word operand
/// shows the little-endian word of the next two bytes in four.
pub proof fn lemma_format_opcode_operands(opcode: u8, arg1: u8, arg2: u8, c1: u8, c2: u8)
    ensures
        !takes_word_operand(opcode) && !takes_byte_operand(opcode) ==> opcode_text(opcode, arg1, arg2)
            == opcode_text(opcode, c1, c2),
        takes_byte_operand(opcode) ==> opcode_text(opcode, arg1, arg2) == opcode_template(opcode).0
            + hex_byte_text(arg1) + opcode_template(opcode).2,
        takes_word_operand(opcode) ==> opcode_text(opcode, arg1, arg2) == opcode_template(opcode).0
            + hex_word_text(word_from_bytes(arg2, arg1)) + opcode_template(opcode).2,
{
    lemma_opcode_operands(opcode);
    let w = word_from_bytes(arg2, arg1);
    assert(w == arg2 as int * 256 + arg1 as int);
    assert(w / 4096 == arg2 / 16 && w / 256 % 16 == arg2 % 16 && w / 16 % 16 == arg1 / 16 && w % 16
        == arg1 % 16) by (nonlinear_arith)
        requires
            w == arg2 as int * 256 + arg1 as int,
    ;
    assert(hex_byte_text(arg2) + hex_byte_text(arg1) =~= hex_word_text(w));
}

/// The mnemonic of `opcode` with its operand bytes, e.g. `LD BC, 0x1234`
/// for 0x01 followed by 0x34 and 0x12.
pub fn format_opcode(opcode: u8, arg1: u8, arg2: u8) -> (text: String)
    ensures
        text@ == opcode_text(opcode, arg1, arg2),
{
    let (before, operand, after) = if opcode < 0x40 {
        template_00_3f(opcode)
    } else if opcode < 0x80 {
        template_40_7f(opcode)
    } else if opcode < 0xC0 {
        template_80_bf(opcode)
    } else {
        template_c0_ff(opcode)
    };
    let mut text = String::from_str(before);
    if operand == 1 {
        append_hex_byte(&mut text, arg1);
    } else if operand == 2 {
        append_hex_byte(&mut text, arg2);
        append_hex_byte(&mut text, arg1);
    }
    text.append(after);
    proof {
        assert(operand == 0 || operand == 1 || operand == 2);
    }
    assert(text@ =~= opcode_text(opcode, arg1, arg2));
    text
}

} // verus!
