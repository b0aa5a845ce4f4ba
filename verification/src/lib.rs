//! Game Boy (Color) emulation core: CPU, memory map, cartridge banking,
//! picture processing, timer, joypad and interrupts.
use vstd::prelude::*;

pub mod apu;
pub mod bits;
pub mod cartridge;
pub mod cpu;
pub mod debug;
pub mod disassembly;
pub mod emulation;
pub mod gameboy;
pub mod instructions;
pub mod interrupts;
pub mod joypad;
pub mod memory;
pub mod options;
pub mod mmu;
pub mod palettes;
pub mod ppu;
pub mod serial;
pub mod text;
pub mod textures;
pub mod timer;
pub mod utils;

verus! {

/// Hardware supported by a cartridge, read from its header.
#[derive(Debug, Copy, Clone, PartialEq, Eq, Structural)]
pub enum HardwareSupport {
    CgbOnly,
    DmgCgb,
    DmgCompat,
}

/// What the CPU is currently doing.
#[derive(Debug, Clone, Copy, PartialEq, Eq, Structural)]
pub enum ExecutionState {
    ExecutingProgram,
    PreparingSpeedSwitch,
    Halted,
}

/// A condition under which the emulation cannot go on: the program asked
/// for something the emulated hardware does not do, or that this emulator
/// does not support.
#[derive(Debug, Copy, Clone, PartialEq, Eq, Structural)]
pub enum EmulationFault {
    /// The CPU fetched an opcode that is not implemented or not legal.
    IllegalOpcode { opcode: u8, pc: u16 },
    /// The pending interrupt bits name no interrupt.
    ImpossibleInterrupt { index: u32 },
    /// JOYP was written with neither key group selected.
    JoypadNoGroupSelected,
    /// A cartridge access that falls outside the cartridge's ROM or RAM.
    CartridgeAccess { address: u16 },
    /// The machine-cycle counter cannot count any further.
    CycleBudgetExhausted,
}

/// The VRAM DMA registers (HDMA1-HDMA5).
pub struct HdmaState {
    /// Built from HDMA1, HDMA2
    pub source_addr: u16,
    /// Built from HDMA3, HDMA4
    pub dest_addr: u16,
    /// HDMA5 (Length, Mode, Start)
    pub hdma_stat: u8,
}

impl HdmaState {
    pub fn is_hdma_active(&self) -> (active: bool)
        ensures
            active == (self.hdma_stat < 0x80),
    {
        let stat = self.hdma_stat;
        assert((stat & 0x80 == 0) == (stat < 0x80)) by {
            crate::bits::lemma_u8_bits(stat);
        }
        (stat & 0x80) == 0x00
    }

    /// Replace the upper byte of a 16-bit register.
    pub fn write_high(attrib: &mut u16, high: u8)
        ensures
            *final(attrib) == high as int * 256 + *old(attrib) as int % 256,
    {
        let a = *attrib;
        let r = (a & 0x00FF) | ((high as u16) << 8u16);
        assert(r == high as int * 256 + a as int % 256) by (bit_vector)
            requires
                r == (a & 0x00FF) | ((high as u16) << 8u16),
        ;
        *attrib = r;
    }

    /// Replace the lower byte of a 16-bit register.
    pub fn write_low(attrib: &mut u16, low: u8)
        ensures
            *final(attrib) == (*old(attrib) as int / 256) * 256 + low as int,
    {
        let a = *attrib;
        let r = (a & 0xFF00) | (low as u16);
        assert(r == (a as int / 256) * 256 + low as int) by (bit_vector)
            requires
                r == (a & 0xFF00) | (low as u16),
        ;
        *attrib = r;
    }

    pub fn write_src_high(&mut self, high: u8)
        ensures
            final(self).source_addr == high as int * 256 + old(self).source_addr as int % 256,
            final(self).dest_addr == old(self).dest_addr,
            final(self).hdma_stat == old(self).hdma_stat,
    {
        HdmaState::write_high(&mut self.source_addr, high);
    }

    /// The lower four bits of the source address are ignored.
    pub fn write_src_low(&mut self, low: u8)
        ensures
            final(self).source_addr == (old(self).source_addr as int / 256) * 256 + (low as int / 16)
                * 16,
            final(self).dest_addr == old(self).dest_addr,
            final(self).hdma_stat == old(self).hdma_stat,
    {
        assert(low & 0xF0 == (low / 16) * 16) by {
            crate::bits::lemma_u8_bits(low);
        }
        HdmaState::write_low(&mut self.source_addr, low & 0xF0);
    }

    /// Only the lower five bits of the destination's upper byte are kept.
    pub fn write_dest_high(&mut self, high: u8)
        ensures
            final(self).dest_addr == (high as int % 32) * 256 + old(self).dest_addr as int % 256,
            final(self).source_addr == old(self).source_addr,
            final(self).hdma_stat == old(self).hdma_stat,
    {
        assert(high & 0x1F == high % 32) by {
            crate::bits::lemma_u8_bits(high);
        }
        HdmaState::write_high(&mut self.dest_addr, high & 0x1F);
    }

    /// The lower four bits of the destination address are ignored.
    pub fn write_dest_low(&mut self, low: u8)
        ensures
            final(self).dest_addr == (old(self).dest_addr as int / 256) * 256 + (low as int / 16)
                * 16,
            final(self).source_addr == old(self).source_addr,
            final(self).hdma_stat == old(self).hdma_stat,
    {
        assert(low & 0xF0 == (low / 16) * 16) by {
            crate::bits::lemma_u8_bits(low);
        }
        HdmaState::write_low(&mut self.dest_addr, low & 0xF0);
    }
}

/// System-wide state shared by the CPU and the memory-mapped components.
pub struct SystemState {
    pub execution_state: ExecutionState,
    /// Hardware supported by current cartridge
    pub hardware_support: HardwareSupport,
    pub key1: u8,
    pub bootrom_mapped: bool,
    pub hdma_state: HdmaState,
    /// Since we run the CPU one opcode at a time or more, each frame can overrun
    /// the `CYCLES_PER_FRAME` (`17556`) value by a tiny amount. However, eventually
    /// these add up and one frame of CPU execution can miss the PPU frame by a
    /// few scanlines. We use this value to keep track of excess cycles in the
    /// previous frame and ignore those many in the current frame
    pub carry_over_cycles: u64,
    pub total_cycles: u64,
}

impl SystemState {
    /// 2 in CGB double speed mode (bit 7 of KEY1 set), 1 otherwise.
    pub fn speed_multiplier(&self) -> (multiplier: u64)
        ensures
            multiplier == (if self.key1 >= 0x80 { 2int } else { 1int }),
    {
        let key1 = self.key1;
        assert(((key1 & 0x80) >> 7u8) == (if key1 >= 0x80 { 1u8 } else { 0u8 })) by {
            crate::bits::lemma_u8_bits(key1);
        }
        ((((key1 & 0x80) >> 7u8) + 1) as u64)
    }
}

/// Calculate the minimum number of bits required to store a value
pub fn min_number_of_bits(value: u8) -> (count: u8)
    ensures
        count == utils::bits_needed(value as nat),
        count <= 8,
{
    utils::min_number_of_bits(value)
}

} // verus!
