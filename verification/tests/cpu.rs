use gibi::cpu::{FlagRegister, Registers};
use gibi::disassembly::format_opcode;

#[test]
fn flags_round_trip_through_a_byte() {
    let flags = FlagRegister { zero: true, negative: false, half_carry: true, carry: false };
    let byte = flags.to_byte();
    assert_eq!(byte, 0xA0);
    assert_eq!(FlagRegister::from_byte(byte), flags);
}

#[test]
fn flags_ignore_the_lower_nibble() {
    let flags = FlagRegister::from_byte(0x5F);
    assert_eq!(flags, FlagRegister { zero: false, negative: true, half_carry: false, carry: true });
    assert_eq!(flags.to_byte(), 0x50);
}

#[test]
fn flags_convert_with_from() {
    let flags = FlagRegister::from(0xB0u8);
    assert_eq!(
        flags,
        FlagRegister { zero: true, negative: false, half_carry: true, carry: true }
    );
    assert_eq!(u8::from(flags), 0xB0);
    let byte: u8 = FlagRegister::from(0x4Fu8).into();
    assert_eq!(byte, 0x40);
}

#[test]
fn register_pairs_compose_their_bytes() {
    let mut regs = Registers::new();
    regs.set_bc(0x1234);
    regs.set_de(0xBEEF);
    regs.set_hl(0xC000);
    assert_eq!((regs.b, regs.c), (0x12, 0x34));
    assert_eq!(regs.get_de(), 0xBEEF);
    assert_eq!(regs.get_hl(), 0xC000);
    regs.set_af(0x12FF);
    assert_eq!(regs.a, 0x12);
    assert_eq!(regs.get_af(), 0x12F0);
}

#[test]
fn format_opcode_without_operand() {
    assert_eq!(format_opcode(0x00, 0x12, 0x34), "NOP ");
    assert_eq!(format_opcode(0x76, 0, 0), "HALT ");
    assert_eq!(format_opcode(0xFF, 0, 0), "RST 0x38");
    assert_eq!(format_opcode(0xD3, 0, 0), "ILLEGAL_D3 ");
    assert_eq!(format_opcode(0x7E, 0, 0), "LD A, (HL)");
}

#[test]
fn format_opcode_with_a_byte_operand() {
    assert_eq!(format_opcode(0x06, 0xAB, 0x00), "LD B, 0xAB");
    assert_eq!(format_opcode(0xE0, 0x44, 0x00), "LDH (0xFF44), A");
    assert_eq!(format_opcode(0x20, 0xFE, 0x00), "JR NZ, 0xFE");
    assert_eq!(format_opcode(0x10, 0x00, 0x00), "STOP 0x00");
}

#[test]
fn format_opcode_with_a_word_operand() {
    assert_eq!(format_opcode(0x01, 0x34, 0x12), "LD BC, 0x1234");
    assert_eq!(format_opcode(0xC3, 0x50, 0x01), "JP (0x0150)");
    assert_eq!(format_opcode(0xEA, 0x00, 0xC0), "LD (0xC000), A");
    assert_eq!(format_opcode(0x08, 0xFE, 0xFF), "LD (0xFFFE), SP");
}

#[test]
fn format_opcode_ignores_bytes_that_are_no_operand() {
    for opcode in 0x40u8..=0xBF {
        assert_eq!(format_opcode(opcode, 0x12, 0x34), format_opcode(opcode, 0xAB, 0xCD));
    }
    assert_eq!(format_opcode(0x3E, 0x7F, 0x00), format_opcode(0x3E, 0x7F, 0xEE));
    assert_eq!(format_opcode(0xCD, 0xCD, 0xAB), "CALL (0xABCD)");
}
