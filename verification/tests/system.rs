use gibi::cartridge::Cartridge;
use gibi::cpu::Cpu;
use gibi::emulation::{handle_command, CommandOutcome, EmulatorCommand, Panel, RunUntil};
use gibi::gameboy::Gameboy;
use gibi::joypad::JoypadKeys;
use gibi::memory::SystemBus;
use gibi::mmu::Mmu;
use gibi::EmulationFault;

/// A ROM with a header: title "TEST", CGB flag, cartridge type, ROM and RAM
/// size codes.
fn rom_with_header(size: usize, cart_type: u8, rom_size: u8, ram_size: u8) -> Vec<u8> {
    let mut rom = vec![0u8; size];
    for (i, b) in b"TEST".iter().enumerate() {
        rom[0x134 + i] = *b;
    }
    rom[0x143] = 0x80;
    rom[0x147] = cart_type;
    rom[0x148] = rom_size;
    rom[0x149] = ram_size;
    for i in 0..0x100 {
        rom[i] = (i % 251) as u8;
    }
    rom
}

/// A boot ROM that runs `program` from address 0.
fn boot_rom(program: &[u8]) -> Vec<u8> {
    let mut rom = vec![0u8; 0x900];
    rom[..program.len()].copy_from_slice(program);
    rom
}

fn mmu_for(rom: Vec<u8>, ram: Option<Vec<u8>>) -> Mmu {
    let cart = Cartridge::new(rom, ram).expect("cartridge accepted");
    Mmu::new(cart, boot_rom(&[0x00]))
}

#[test]
fn frame_runs_a_boot_program() {
    // LD A,0x42; LD (0xC000),A; LD B,7; JR -2
    let program = [0x3E, 0x42, 0xEA, 0x00, 0xC0, 0x06, 0x07, 0x18, 0xFE];
    let rom = rom_with_header(0x8000, 0x00, 0x00, 0x00);
    let (mut gb, header) = Gameboy::new(rom, None, boot_rom(&program)).expect("accepted");
    assert_eq!(header.title, "TEST\0\0\0\0\0\0\0");
    assert_eq!(gb.run_one_frame(), Ok(()));
    let debug = gb.load_cpu_debug();
    assert_eq!(debug.registers.a, 0x42);
    assert_eq!(debug.registers.b, 0x07);
    assert_eq!(debug.registers.pc, 0x0007);
    assert_eq!(gb.mmu.peek(0xC000), Ok(0x42));
    // The history keeps the ten most recent opcodes: all the loop's JR
    assert_eq!(debug.opcodes.len(), 10);
    for op in &debug.opcodes {
        assert_eq!((op.pc, op.opcode, op.arg1), (0x0007, 0x18, 0xFE));
    }
    // One frame is 17556 m-cycles; the overrun is carried over
    let total = gb.mmu.total_cycles();
    assert!(total >= 17556);
    assert_eq!(gb.mmu.carry_over_cycles(), total - 17556);
    assert_eq!(gb.run_one_frame(), Ok(()));
    assert_eq!(gb.mmu.carry_over_cycles(), gb.mmu.total_cycles() - (2 * 17556));
}

#[test]
fn frame_of_one_cycle_instructions_ends_on_its_last_cycle() {
    // Every instruction on the way takes one m-cycle, so the frame stops
    // exactly on its end and carries nothing over.
    let rom = rom_with_header(0x8000, 0x00, 0x00, 0x00);
    let (mut gb, _) = Gameboy::new(rom, None, boot_rom(&[])).expect("accepted");
    assert_eq!(gb.run_one_frame(), Ok(()));
    assert_eq!(gb.mmu.total_cycles(), 17556);
    assert_eq!(gb.mmu.carry_over_cycles(), 0);
    assert_eq!(gb.load_cpu_debug().registers.pc, 17556);
}

#[test]
fn illegal_opcode_stops_the_frame() {
    let rom = rom_with_header(0x8000, 0x00, 0x00, 0x00);
    let (mut gb, _) = Gameboy::new(rom, None, boot_rom(&[0x00, 0xD3])).expect("accepted");
    assert_eq!(gb.run_one_frame(), Err(EmulationFault::IllegalOpcode { opcode: 0xD3, pc: 0x0001 }));
}

#[test]
fn unsupported_cartridge_is_refused() {
    let rom = rom_with_header(0x8000, 0x10, 0x00, 0x00);
    assert!(Cartridge::accepts_rom(&rom));
    match Gameboy::new(rom, None, boot_rom(&[0x00])) {
        Err(message) => assert_eq!(message, "Unsupported MBC with code: '16'"),
        Ok(_) => panic!("an MBC3 cartridge is not supported"),
    }
}

#[test]
fn unknown_rom_size_is_not_accepted() {
    let rom = rom_with_header(0x8000, 0x00, 0x09, 0x00);
    assert!(!Cartridge::accepts_rom(&rom));
    let short = vec![0u8; 0x100];
    assert!(!Cartridge::accepts_rom(&short));
}

#[test]
fn work_ram_reads_back_what_was_written() {
    let mut mmu = mmu_for(rom_with_header(0x8000, 0x00, 0x00, 0x00), None);
    mmu.poke(0xC123, 0x5A);
    assert_eq!(mmu.peek(0xC123), Ok(0x5A));
    mmu.poke(0xD456, 0xA5);
    assert_eq!(mmu.peek(0xD456), Ok(0xA5));
    mmu.poke(0xFF90, 0x77);
    assert_eq!(mmu.peek(0xFF90), Ok(0x77));
}

#[test]
fn wram_banks_are_switched_by_svbk() {
    let mut mmu = mmu_for(rom_with_header(0x8000, 0x00, 0x00, 0x00), None);
    mmu.poke(0xD000, 0x11);
    mmu.poke(0xFF70, 0x02);
    assert_eq!(mmu.peek(0xFF70), Ok(0x02));
    assert_eq!(mmu.peek(0xD000), Ok(0x00));
    mmu.poke(0xD000, 0x22);
    mmu.poke(0xFF70, 0x00);
    // Bank 0 selects bank 1
    assert_eq!(mmu.peek(0xD000), Ok(0x11));
    mmu.poke(0xFF70, 0x0A);
    assert_eq!(mmu.peek(0xFF70), Ok(0x02));
    assert_eq!(mmu.peek(0xD000), Ok(0x22));
}

#[test]
fn echo_ram_mirrors_work_ram() {
    let mut mmu = mmu_for(rom_with_header(0x8000, 0x00, 0x00, 0x00), None);
    mmu.poke(0xC000, 0x12);
    mmu.poke(0xD123, 0x34);
    assert_eq!(mmu.peek(0xE000), Ok(0x12));
    assert_eq!(mmu.peek(0xF123), Ok(0x34));
    // A write to echo RAM lands in work RAM
    mmu.poke(0xFDFF, 0x56);
    assert_eq!(mmu.peek(0xDDFF), Ok(0x56));
    mmu.poke(0xE010, 0x78);
    assert_eq!(mmu.peek(0xC010), Ok(0x78));
    for address in [0xE000u16, 0xE010, 0xF123, 0xFDFF] {
        assert_eq!(mmu.peek(address), mmu.peek(address - 0x2000));
    }
}

#[test]
fn boot_rom_is_mapped_until_disabled() {
    let rom = rom_with_header(0x8000, 0x00, 0x00, 0x00);
    let cart = Cartridge::new(rom, None).expect("accepted");
    let mut mmu = Mmu::new(cart, boot_rom(&[0xAA, 0xBB]));
    assert_eq!(mmu.peek(0x0000), Ok(0xAA));
    assert_eq!(mmu.peek(0xFF50), Ok(1));
    // The header is always the cartridge's
    assert_eq!(mmu.peek(0x0134), Ok(b'T'));
    mmu.poke(0xFF50, 0x01);
    assert_eq!(mmu.peek(0xFF50), Ok(0));
    assert_eq!(mmu.peek(0x0000), Ok(0x00));
    assert_eq!(mmu.peek(0x0001), Ok(0x01));
}

#[test]
fn key1_keeps_its_speed_bit() {
    let mut mmu = mmu_for(rom_with_header(0x8000, 0x00, 0x00, 0x00), None);
    mmu.poke(0xFF4D, 0xFF);
    assert_eq!(mmu.peek(0xFF4D), Ok(0x7F));
    assert_eq!(mmu.speed_multiplier(), 1);
}

#[test]
fn gdma_copies_into_vram() {
    let mut mmu = mmu_for(rom_with_header(0x8000, 0x00, 0x00, 0x00), None);
    for i in 0..0x20u16 {
        mmu.poke(0xC000 + i, i as u8 + 1);
    }
    mmu.poke(0xFF51, 0xC0);
    mmu.poke(0xFF52, 0x00);
    mmu.poke(0xFF53, 0x00);
    mmu.poke(0xFF54, 0x10);
    // At power-on HDMA5 reads as an active transfer: the first write cancels it
    mmu.poke(0xFF55, 0x01);
    assert_eq!(mmu.peek(0xFF55), Ok(0x80));
    assert_eq!(mmu.peek(0x8010), Ok(0xFF));
    // Two blocks of 16 bytes
    mmu.poke(0xFF55, 0x01);
    for i in 0..0x20u16 {
        assert_eq!(mmu.peek(0x8010 + i), Ok(i as u8 + 1));
    }
    assert_eq!(mmu.peek(0xFF55), Ok(0xFF));
}

#[test]
fn cartridge_ram_reads_back_once_enabled() {
    let rom = rom_with_header(0x8000, 0x03, 0x00, 0x02);
    let mut mmu = mmu_for(rom, None);
    // Disabled RAM reads as 0xFF and ignores writes
    mmu.poke(0xA000, 0x55);
    assert_eq!(mmu.peek(0xA000), Ok(0xFF));
    // 0x0000-0x08FF is the boot ROM's while it is mapped; 0x1000 is the MBC's
    mmu.poke(0x1000, 0x0A);
    mmu.poke(0xA000, 0x55);
    assert_eq!(mmu.peek(0xA000), Ok(0x55));
    let saved = mmu.save_ram().expect("MBC1 with RAM has RAM to save");
    assert_eq!(saved.len(), 0x2000);
    assert_eq!(saved[0], 0x55);
}

#[test]
fn rom_without_banks_cannot_be_read_past_its_end() {
    let rom = rom_with_header(0x4000, 0x00, 0x00, 0x00);
    let mut mmu = mmu_for(rom, None);
    assert_eq!(mmu.peek(0x3FFF), Ok(0x00));
    assert_eq!(mmu.peek(0x4000), Err(EmulationFault::CartridgeAccess { address: 0x4000 }));
    assert_eq!(mmu.fault(), None);
    assert_eq!(mmu.unticked_read(0x4000), 0xFF);
    assert_eq!(mmu.fault(), Some(EmulationFault::CartridgeAccess { address: 0x4000 }));
}

#[test]
fn joyp_write_without_a_group_is_a_fault() {
    let mut mmu = mmu_for(rom_with_header(0x8000, 0x00, 0x00, 0x00), None);
    mmu.poke(0xFF00, 0x20);
    assert_eq!(mmu.peek(0xFF00), Ok(0xEF));
    assert_eq!(mmu.fault(), None);
    mmu.poke(0xFF00, 0x00);
    assert_eq!(mmu.fault(), Some(EmulationFault::JoypadNoGroupSelected));
}

#[test]
fn div_counts_four_t_cycles_per_m_cycle() {
    let mut mmu = mmu_for(rom_with_header(0x8000, 0x00, 0x00, 0x00), None);
    assert_eq!(mmu.peek(0xFF04), Ok(0x00));
    for _ in 0..64 {
        mmu.tick();
    }
    assert_eq!(mmu.peek(0xFF04), Ok(0x01));
    assert_eq!(mmu.total_cycles(), 64);
    mmu.poke(0xFF04, 0x99);
    assert_eq!(mmu.peek(0xFF04), Ok(0x00));
}

#[test]
fn bus_reads_and_writes_take_a_cycle() {
    let mut mmu = mmu_for(rom_with_header(0x8000, 0x00, 0x00, 0x00), None);
    mmu.write(0xC000, 0x12);
    assert_eq!(mmu.read(0xC000), 0x12);
    assert_eq!(mmu.total_cycles(), 2);
    assert_eq!(mmu.unticked_read(0xC000), 0x12);
    assert_eq!(mmu.total_cycles(), 2);
}

#[test]
fn oam_dma_blocks_all_but_hram() {
    let mut mmu = mmu_for(rom_with_header(0x8000, 0x00, 0x00, 0x00), None);
    mmu.poke(0xC000, 0x33);
    mmu.poke(0xFF80, 0x44);
    mmu.write(0xFF46, 0xC0);
    assert_eq!(mmu.read(0xC000), 0xFF);
    assert_eq!(mmu.read(0xFF80), 0x44);
    for _ in 0..200 {
        mmu.tick();
    }
    assert_eq!(mmu.read(0xC000), 0x33);
    assert_eq!(mmu.peek(0xFE00), Ok(0x33));
}

#[test]
fn interrupt_registers_keep_five_bits() {
    let mut mmu = mmu_for(rom_with_header(0x8000, 0x00, 0x00, 0x00), None);
    mmu.poke(0xFFFF, 0xFF);
    assert_eq!(mmu.peek(0xFFFF), Ok(0x1F));
    mmu.poke(0xFF0F, 0xE4);
    assert_eq!(mmu.peek(0xFF0F), Ok(0x04));
}

#[test]
fn commands_drive_the_emulator() {
    let rom = rom_with_header(0x8000, 0x00, 0x00, 0x00);
    let (mut gb, _) = Gameboy::new(rom, None, boot_rom(&[0x18, 0xFE])).expect("accepted");
    assert!(matches!(
        handle_command(&mut gb, EmulatorCommand::RunUntil(RunUntil::FrameEnd)),
        Ok(CommandOutcome::CompletedFrame)
    ));
    assert!(gb.mmu.total_cycles() >= 17556);
    match handle_command(&mut gb, EmulatorCommand::QueryDebug(Panel::Cpu)) {
        Ok(CommandOutcome::Debug(debug)) => assert_eq!(debug.registers.pc, 0),
        _ => panic!("the CPU panel gets the CPU's state"),
    }
    assert!(matches!(
        handle_command(&mut gb, EmulatorCommand::QueryDebug(Panel::Ppu)),
        Ok(CommandOutcome::Nothing)
    ));
    assert!(matches!(
        handle_command(&mut gb, EmulatorCommand::KeyPressed(JoypadKeys::A)),
        Ok(CommandOutcome::Nothing)
    ));
    assert!(matches!(
        handle_command(&mut gb, EmulatorCommand::KeyReleased(JoypadKeys::A)),
        Ok(CommandOutcome::Nothing)
    ));
    assert!(matches!(handle_command(&mut gb, EmulatorCommand::Exit), Ok(CommandOutcome::Exit)));
}

#[test]
fn frame_buffer_is_copied_out() {
    let rom = rom_with_header(0x8000, 0x00, 0x00, 0x00);
    let (gb, _) = Gameboy::new(rom, None, boot_rom(&[0x18, 0xFE])).expect("accepted");
    let mut buffer = vec![7u8; 92160];
    gb.write_frame(&mut buffer);
    assert!(buffer.iter().all(|b| *b == 0));
}

#[test]
fn stack_alu_and_calls() {
    let program = [
        0x31, 0xFE, 0xFF, // LD SP, 0xFFFE
        0x01, 0x34, 0x12, // LD BC, 0x1234
        0xC5, // PUSH BC
        0xD1, // POP DE
        0x3E, 0x45, // LD A, 0x45
        0xC6, 0x38, // ADD A, 0x38
        0x27, // DAA
        0xCD, 0x20, 0x00, // CALL 0x0020
        0x18, 0xFE, // JR -2
    ];
    let mut boot = boot_rom(&program);
    // LD B, 0x99; RET
    boot[0x20..0x23].copy_from_slice(&[0x06, 0x99, 0xC9]);
    let rom = rom_with_header(0x8000, 0x00, 0x00, 0x00);
    let (mut gb, _) = Gameboy::new(rom, None, boot).expect("accepted");
    assert_eq!(gb.run_one_frame(), Ok(()));
    let regs = gb.load_cpu_debug().registers;
    // POP reads back what PUSH wrote
    assert_eq!(regs.get_de(), 0x1234);
    // 0x45 + 0x38 = 0x7D, adjusted to BCD 83
    assert_eq!(regs.a, 0x83);
    assert_eq!(regs.f.to_byte(), 0x00);
    assert_eq!(regs.b, 0x99);
    assert_eq!(regs.sp, 0xFFFE);
    assert_eq!(regs.pc, 0x0010);
    // The return address is still below the stack pointer
    assert_eq!(gb.mmu.peek(0xFFFC), Ok(0x10));
    assert_eq!(gb.mmu.peek(0xFFFD), Ok(0x00));
}

#[test]
fn requested_and_enabled_interrupt_is_serviced() {
    let program = [
        0x31, 0xFE, 0xFF, // LD SP, 0xFFFE
        0x3E, 0x04, // LD A, 0x04
        0xE0, 0xFF, // LDH (0xFF), A: IE = timer
        0xE0, 0x0F, // LDH (0x0F), A: IF = timer
        0x00, // NOP
        0x18, 0xFE, // JR -2
    ];
    let mut boot = boot_rom(&program);
    // The timer interrupt's handler: LD A, 0x77; JR -2
    boot[0x50..0x54].copy_from_slice(&[0x3E, 0x77, 0x18, 0xFE]);
    let rom = rom_with_header(0x8000, 0x00, 0x00, 0x00);
    let (mut gb, _) = Gameboy::new(rom, None, boot).expect("accepted");
    assert_eq!(gb.run_one_frame(), Ok(()));
    let regs = gb.load_cpu_debug().registers;
    assert_eq!(regs.a, 0x77);
    assert_eq!(regs.pc, 0x0052);
    assert_eq!(regs.sp, 0xFFFC);
    // The interrupted PC was pushed, and the request was cleared
    assert_eq!(gb.mmu.peek(0xFFFC), Ok(0x09));
    assert_eq!(gb.mmu.peek(0xFFFD), Ok(0x00));
    assert_eq!(gb.mmu.peek(0xFF0F).map(|f| f & 0x04), Ok(0x00));
}

#[test]
fn servicing_an_interrupt_takes_five_cycles() {
    let mut mmu = mmu_for(rom_with_header(0x8000, 0x00, 0x00, 0x00), None);
    let mut cpu = Cpu::new();
    cpu.regs.sp = 0xFFFE;
    mmu.poke(0xFFFF, 0x04);
    mmu.poke(0xFF0F, 0x04);
    let before = mmu.total_cycles();
    assert_eq!(cpu.execute(&mut mmu), Ok(()));
    // Five m-cycles to service the timer interrupt, one for the NOP at its vector
    assert_eq!(mmu.total_cycles() - before, 6);
    assert_eq!(cpu.regs.pc, 0x0051);
    assert_eq!(cpu.regs.sp, 0xFFFC);
    assert!(!cpu.ime);
}

#[test]
fn vram_and_oam_read_back_what_was_written() {
    let mut mmu = mmu_for(rom_with_header(0x8000, 0x00, 0x00, 0x00), None);
    mmu.poke(0x8123, 0x77);
    mmu.poke(0x9FFF, 0x12);
    mmu.poke(0xFE10, 0x5A);
    assert_eq!(mmu.peek(0x8123), Ok(0x77));
    assert_eq!(mmu.peek(0x9FFF), Ok(0x12));
    assert_eq!(mmu.peek(0xFE10), Ok(0x5A));
}

#[test]
fn sprite_at_the_right_edge_stays_on_its_line() {
    let mut mmu = mmu_for(rom_with_header(0x8000, 0x00, 0x00, 0x00), None);
    // Tile 0: every pixel has colour 3
    for address in 0x8000u16..0x8010 {
        mmu.poke(address, 0xFF);
    }
    // Object palette 0: every colour red
    mmu.poke(0xFF6A, 0x80);
    for _ in 0..4 {
        mmu.poke(0xFF6B, 0x1F);
        mmu.poke(0xFF6B, 0x00);
    }
    // Sprite 0 on lines 10-17, at x = 161: only its first column (screen
    // column 153) up to screen column 159 can be seen
    mmu.poke(0xFE00, 26);
    mmu.poke(0xFE01, 161);
    mmu.poke(0xFE02, 0);
    mmu.poke(0xFE03, 0);
    // LCD on, sprites on
    mmu.poke(0xFF40, 0x82);
    let mut rendered = false;
    for _ in 0..200_000 {
        mmu.tick();
        if mmu.peek(0xFF44) == Ok(10) && mmu.peek(0xFF41).map(|s| s & 0b11) == Ok(0) {
            rendered = true;
            break;
        }
    }
    assert!(rendered);
    let mut frame = vec![0u8; 92160];
    mmu.copy_frame(&mut frame);
    let pixel = |row: usize, x: usize| frame[row * 640 + x * 4..row * 640 + x * 4 + 4].to_vec();
    // The sprite is drawn at the end of line 10 ...
    assert_eq!(pixel(10, 159), pixel(10, 153));
    assert_ne!(pixel(10, 159), pixel(10, 152));
    // ... and nothing of it lands on line 11, not yet rendered
    assert_eq!(pixel(11, 0), vec![0, 0, 0, 0]);
}

#[test]
fn stat_writes_keep_the_mode_bits() {
    let mut mmu = mmu_for(rom_with_header(0x8000, 0x00, 0x00, 0x00), None);
    // The PPU starts in OAM search (mode 2)
    assert_eq!(mmu.peek(0xFF41), Ok(0x02));
    mmu.poke(0xFF41, 0xFF);
    assert_eq!(mmu.peek(0xFF41), Ok(0x7A));
    mmu.poke(0xFF42, 0x12);
    assert_eq!(mmu.peek(0xFF42), Ok(0x12));
}

#[test]
fn color_palette_index_auto_increments() {
    let mut mmu = mmu_for(rom_with_header(0x8000, 0x00, 0x00, 0x00), None);
    mmu.poke(0xFF68, 0x80);
    mmu.poke(0xFF69, 0x12);
    assert_eq!(mmu.peek(0xFF68), Ok(0x81));
    mmu.poke(0xFF69, 0x34);
    mmu.poke(0xFF68, 0x00);
    assert_eq!(mmu.peek(0xFF69), Ok(0x12));
    mmu.poke(0xFF68, 0x01);
    assert_eq!(mmu.peek(0xFF69), Ok(0x34));
    // Bit 6 of the index register is never set
    mmu.poke(0xFF6A, 0xFF);
    assert_eq!(mmu.peek(0xFF6A), Ok(0xBF));
}

#[test]
fn vram_banks_are_switched_by_vbk() {
    let mut mmu = mmu_for(rom_with_header(0x8000, 0x00, 0x00, 0x00), None);
    assert_eq!(mmu.peek(0xFF4F), Ok(0xFE));
    mmu.poke(0xFF4F, 0x01);
    assert_eq!(mmu.peek(0xFF4F), Ok(0xFF));
    mmu.poke(0x8000, 0x42);
    mmu.poke(0xFF4F, 0x00);
    assert_eq!(mmu.peek(0x8000), Ok(0xFF));
    mmu.poke(0xFF4F, 0x03);
    assert_eq!(mmu.peek(0x8000), Ok(0x42));
}

#[test]
fn cartridge_ram_is_disabled_by_other_values() {
    let rom = rom_with_header(0x8000, 0x03, 0x00, 0x02);
    let mut mmu = mmu_for(rom, None);
    mmu.poke(0x1000, 0x1A);
    mmu.poke(0xA000, 0x55);
    assert_eq!(mmu.peek(0xA000), Ok(0x55));
    mmu.poke(0x1000, 0x0B);
    assert_eq!(mmu.peek(0xA000), Ok(0xFF));
}
