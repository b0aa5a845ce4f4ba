use vstd::prelude::*;

use crate::apu::{Apu, SOUND_END, SOUND_START, WAVE_END, WAVE_START};
use crate::cartridge::{
    Cartridge, BOOT_ROM_END, BOOT_ROM_SIZE, CART_RAM_END, CART_RAM_START, CART_ROM_END,
};
use crate::interrupts::{interrupt_mask, InterruptType, InterruptHandler, INTERRUPT_ENABLE_ADDRESS, INTERRUPT_FLAG_ADDRESS};
use crate::joypad::{poll_requests_interrupt, polled_joyp, Joypad, JOYP_ADDRESS};
use crate::ppu::{
    ppu_read, ppu_wf, ppu_write, Ppu, OAM_DMA_CYCLES, PpuView, OAM_DMA_ADDRESS, OAM_END, OAM_START, PALETTE_END,
    PALETTE_START, PPU_REGISTERS_END, PPU_REGISTERS_START, VRAM_BANK_ADDRESS, VRAM_END,
    VRAM_START,
};
use crate::serial::{Serial, SERIAL_END, SERIAL_START};
use crate::timer::{
    Timer, DIV_ADDRESS, TIMA_ADDRESS, TIMER_CONTROL, TIMER_END, TIMER_START, TMA_ADDRESS,
};
use crate::memory::{lemma_mcycles_push, mcycles, BusEvent, SystemBus};
use crate::ppu::{ppu_dots, DOTS_PER_TICK};
use crate::timer::{surroundings, timer_m_cycle};
use crate::joypad::{JoypadKeys, key_code, JOYPAD_POLL_CYCLES};
use crate::cartridge::{ram_view, ref_ram_view, MbcKind};
use crate::ExecutionState;
use crate::ppu::{FRAMEBUFFER_SIZE, OAM_SIZE};
use crate::{EmulationFault, HardwareSupport, HdmaState, SystemState};

verus! {

pub const CART_HEADER_START: u16 = 0x100;

pub const CART_HEADER_END: u16 = 0x1FF;

/// 4KB
pub const WRAM_BANK_SIZE: usize = 0x1000;

pub const WRAM_SIZE: usize = 0x8000;

pub const HRAM_SIZE: usize = 0x7F;

pub const WRAM_FIXED_START: u16 = 0xC000;

pub const WRAM_FIXED_END: u16 = 0xCFFF;

pub const WRAM_BANKED_START: u16 = 0xD000;

pub const WRAM_BANKED_END: u16 = 0xDFFF;

pub const WRAM_ECHO_START: u16 = 0xE000;

pub const WRAM_ECHO_END: u16 = 0xFDFF;

/// Echo RAM lies this far above the work RAM it mirrors.
pub const WRAM_ECHO_OFFSET: u16 = 0x2000;

pub const UNUSED_START: u16 = 0xFEA0;

pub const UNUSED_END: u16 = 0xFEFF;

pub const KEY1: u16 = 0xFF4D;

pub const BOOTROM_DISABLE: u16 = 0xFF50;

/// VRAM DMA Source High
pub const HDMA1: u16 = 0xFF51;

/// VRAM DMA Source Low
pub const HDMA2: u16 = 0xFF52;

/// VRAM DMA Dest High
pub const HDMA3: u16 = 0xFF53;

/// VRAM DMA Dest Low
pub const HDMA4: u16 = 0xFF54;

/// VRAM DMA Length/Mode/Start
pub const HDMA5: u16 = 0xFF55;

pub const WRAM_BANK_SELECT: u16 = 0xFF70;

pub const HRAM_START: u16 = 0xFF80;

pub const HRAM_END: u16 = 0xFFFE;

/// An OAM DMA transfer in progress.
#[derive(Debug, Clone, Copy, PartialEq, Eq, Structural)]
pub struct OamDma {
    pub pending_cycles: u64,
    pub next_address: u16,
}

/// The MMU (Memory-Management Unit) is responsible for connecting the CPU to
/// the rest of the components. The `Mmu` implements the memory-map of the
/// Game Boy, redirecting reads and writes made by the CPU and PPU to the
/// correct component to which the address is mapped.
pub struct Mmu {
    pub(crate) cart: Cartridge,
    pub(crate) ppu: Ppu,
    pub(crate) apu: Apu,
    pub(crate) joypad: Joypad,
    pub(crate) timer: Timer,
    pub(crate) serial: Serial,
    pub(crate) interrupts: InterruptHandler,
    pub(crate) system_state: SystemState,
    // Only two banks are used in DMG mode
    // CGB mode uses all 8, with 0 being fixed, and 1-7 being switchable
    pub(crate) wram: Vec<u8>,
    pub(crate) wram_bank: usize,
    pub(crate) hram: Vec<u8>,
    pub(crate) oam_dma: Option<OamDma>,
    /// The CGB boot ROM, mapped over the cartridge until it is disabled.
    pub(crate) boot_rom: Vec<u8>,
    /// The first access that the emulated hardware cannot serve.
    pub(crate) fault: Option<EmulationFault>,
    /// What the CPU has done on this bus.
    pub(crate) events: Ghost<Seq<BusEvent>>,
}

/// The state of the memory map, with its memories as sequences.
pub struct MmuView {
    pub cart: Cartridge,
    pub ppu: PpuView,
    pub joypad: Joypad,
    pub timer: Timer,
    pub interrupts: InterruptHandler,
    pub system_state: SystemState,
    pub wram: Seq<u8>,
    pub wram_bank: usize,
    pub hram: Seq<u8>,
    pub oam_dma: Option<OamDma>,
    pub boot_rom: Seq<u8>,
    pub fault: Option<EmulationFault>,
}

impl View for Mmu {
    type V = MmuView;

    open spec fn view(&self) -> MmuView {
        self.model()
    }
}

impl Mmu {
    pub closed spec fn model(&self) -> MmuView {
        MmuView {
            cart: self.cart,
            ppu: self.ppu@,
            joypad: self.joypad,
            timer: self.timer,
            interrupts: self.interrupts,
            system_state: self.system_state,
            wram: self.wram@,
            wram_bank: self.wram_bank,
            hram: self.hram@,
            oam_dma: self.oam_dma,
            boot_rom: self.boot_rom@,
            fault: self.fault,
        }
    }

    /// What the CPU has done on this bus so far.
    pub closed spec fn trace(&self) -> Seq<BusEvent> {
        self.events@
    }

    /// The cycle counter has counted exactly the m-cycles of the recorded
    /// events.
    pub open spec fn cycles_counted(&self) -> bool {
        self@.system_state.total_cycles == mcycles(self.trace())
    }

}

/// Sizes of the memories, the bank register's range and what the
/// components need.
pub open spec fn mmu_wf(m: MmuView) -> bool {
    &&& m.wram.len() == WRAM_SIZE
    &&& m.wram_bank < 8
    &&& m.hram.len() == HRAM_SIZE
    &&& m.boot_rom.len() == BOOT_ROM_SIZE
    &&& ppu_wf(m.ppu)
    &&& m.joypad.wf()
    &&& m.oam_dma matches Some(d) ==> d.next_address + d.pending_cycles <= 0xFFFF
}

/// Where an address of the switchable WRAM bank lies in WRAM; bank 0
/// selects bank 1.
pub open spec fn banked_index(bank: usize, address: u16) -> int {
    WRAM_BANK_SIZE * (if bank == 0 { 1 } else { bank as int }) + (address - WRAM_BANKED_START)
}

/// The first fault is the one that is kept.
pub open spec fn latch(fault: Option<EmulationFault>, e: EmulationFault) -> Option<EmulationFault> {
    match fault {
        Some(f) => Some(f),
        None => Some(e),
    }
}

/// A read of the cartridge, or the fault an access outside it is.
pub open spec fn cart_peek(m: MmuView, address: u16) -> Result<u8, EmulationFault> {
    if m.cart.can_read(address) {
        Ok(m.cart.read_value(address))
    } else {
        Err(EmulationFault::CartridgeAccess { address })
    }
}

/// The timer register at `address`.
pub open spec fn timer_value(t: Timer, address: u16) -> u8 {
    if address == DIV_ADDRESS {
        (t.div / 256) as u8
    } else if address == TIMA_ADDRESS {
        t.tima
    } else if address == TMA_ADDRESS {
        t.tma
    } else {
        t.tac
    }
}

/// What a read of `address` gives, without the time it takes.
#[verifier::opaque]
pub open spec fn peek_spec(m: MmuView, address: u16) -> Result<u8, EmulationFault>
    decreases address,
{
    if CART_HEADER_START <= address <= CART_HEADER_END {
        cart_peek(m, address)
    } else if address <= BOOT_ROM_END && m.system_state.bootrom_mapped {
        Ok(m.boot_rom[address as int])
    } else if address <= CART_ROM_END {
        cart_peek(m, address)
    } else if address <= VRAM_END {
        Ok(ppu_read(m.ppu, address))
    } else if address <= CART_RAM_END {
        cart_peek(m, address)
    } else if address <= WRAM_FIXED_END {
        Ok(m.wram[address - WRAM_FIXED_START])
    } else if address <= WRAM_BANKED_END {
        Ok(m.wram[banked_index(m.wram_bank, address)])
    } else if address <= WRAM_ECHO_END {
        peek_spec(m, (address - WRAM_ECHO_OFFSET) as u16)
    } else if address <= OAM_END {
        Ok(ppu_read(m.ppu, address))
    } else if address <= UNUSED_END {
        Ok(0xFF)
    } else if address == JOYP_ADDRESS {
        Ok(m.joypad.joyp)
    } else if SERIAL_START <= address <= SERIAL_END {
        Ok(0xFF)
    } else if TIMER_START <= address <= TIMER_END {
        Ok(timer_value(m.timer, address))
    } else if address == INTERRUPT_FLAG_ADDRESS {
        Ok(m.interrupts.interrupt_flag % 32)
    } else if SOUND_START <= address <= SOUND_END || WAVE_START <= address <= WAVE_END {
        Ok(0xFF)
    } else if address == OAM_DMA_ADDRESS {
        Ok(0xFF)
    } else if PPU_REGISTERS_START <= address <= PPU_REGISTERS_END || address == VRAM_BANK_ADDRESS {
        Ok(ppu_read(m.ppu, address))
    } else if address == KEY1 {
        Ok(m.system_state.key1)
    } else if address == BOOTROM_DISABLE {
        Ok(if m.system_state.bootrom_mapped { 1 } else { 0 })
    } else if HDMA1 <= address <= HDMA4 {
        Ok(0xFF)
    } else if address == HDMA5 {
        Ok(m.system_state.hdma_state.hdma_stat)
    } else if PALETTE_START <= address <= PALETTE_END {
        Ok(ppu_read(m.ppu, address))
    } else if address == WRAM_BANK_SELECT {
        Ok(m.wram_bank as u8)
    } else if HRAM_START <= address <= HRAM_END {
        Ok(m.hram[address - HRAM_START])
    } else if address == INTERRUPT_ENABLE_ADDRESS {
        Ok(m.interrupts.interrupt_enable % 32)
    } else {
        Ok(0xFF)
    }
}

impl Mmu {
    fn cart_read(&self, address: u16) -> (data: Result<u8, EmulationFault>)
        ensures
            data == cart_peek(self@, address),
    {
        if self.cart.can_read_at(address) {
            Ok(self.cart.read(address))
        } else {
            Err(EmulationFault::CartridgeAccess { address })
        }
    }

    pub fn wram_banked_read(&self, address: u16) -> (data: u8)
        requires
            mmu_wf(self@),
            WRAM_BANKED_START <= address <= WRAM_BANKED_END,
        ensures
            data == self@.wram[banked_index(self@.wram_bank, address)],
    {
        let bank = if self.wram_bank == 0x00 {
            1
        } else {
            self.wram_bank
        };
        let index = WRAM_BANK_SIZE * bank + (address - WRAM_BANKED_START) as usize;
        self.wram[index]
    }

    /// Read the contents of a memory location without ticking any component.
    pub fn peek(&self, address: u16) -> (data: Result<u8, EmulationFault>)
        requires
            mmu_wf(self@),
        ensures
            data == peek_spec(self@, address),
        decreases address,
    {
        reveal(peek_spec);
        if CART_HEADER_START <= address && address <= CART_HEADER_END {
            self.cart_read(address)
        } else if address <= BOOT_ROM_END && self.system_state.bootrom_mapped {
            Ok(self.boot_rom[address as usize])
        } else if address <= CART_ROM_END {
            self.cart_read(address)
        } else if address <= VRAM_END {
            Ok(self.ppu.read(address))
        } else if address <= CART_RAM_END {
            self.cart_read(address)
        } else if address <= WRAM_FIXED_END {
            Ok(self.wram[(address - WRAM_FIXED_START) as usize])
        } else if address <= WRAM_BANKED_END {
            // Switchable bank for WRAM
            Ok(self.wram_banked_read(address))
        } else if address <= WRAM_ECHO_END {
            self.peek(address - WRAM_ECHO_OFFSET)
        } else if address <= OAM_END {
            Ok(self.ppu.read(address))
        } else if address <= UNUSED_END {
            Ok(0xFF)
        } else if address == JOYP_ADDRESS {
            Ok(self.joypad.read(address))
        } else if SERIAL_START <= address && address <= SERIAL_END {
            Ok(self.serial.read(address))
        } else if TIMER_START <= address && address <= TIMER_END {
            Ok(self.timer.read(address))
        } else if address == INTERRUPT_FLAG_ADDRESS {
            Ok(self.interrupts.read(address))
        } else if (SOUND_START <= address && address <= SOUND_END) || (WAVE_START <= address
            && address <= WAVE_END) {
            Ok(self.apu.read(address))
        } else if address == OAM_DMA_ADDRESS {
            Ok(0xFF)
        } else if (PPU_REGISTERS_START <= address && address <= PPU_REGISTERS_END) || address
            == VRAM_BANK_ADDRESS {
            Ok(self.ppu.read(address))
        } else if address == KEY1 {
            Ok(self.system_state.key1)
        } else if address == BOOTROM_DISABLE {
            Ok(if self.system_state.bootrom_mapped { 1 } else { 0 })
        } else if HDMA1 <= address && address <= HDMA4 {
            Ok(0xFF)
        } else if address == HDMA5 {
            Ok(self.system_state.hdma_state.hdma_stat)
        } else if PALETTE_START <= address && address <= PALETTE_END {
            Ok(self.ppu.read(address))
        } else if address == WRAM_BANK_SELECT {
            Ok(self.wram_bank as u8)
        } else if HRAM_START <= address && address <= HRAM_END {
            Ok(self.hram[(address - HRAM_START) as usize])
        } else if address == INTERRUPT_ENABLE_ADDRESS {
            Ok(self.interrupts.read(address))
        } else {
            Ok(0xFF)
        }
    }
}

/// The timer after a write of `data` to its register at `address`.
pub open spec fn timer_written(t: Timer, address: u16, data: u8) -> Timer {
    if address == DIV_ADDRESS {
        Timer { div: 0, ..t }
    } else if address == TIMA_ADDRESS {
        Timer { tima: data, ..t }
    } else if address == TMA_ADDRESS {
        Timer { tma: data, ..t }
    } else {
        Timer { tac: data % 8, ..t }
    }
}

/// JOYP and the interrupt flag after a write of `data` to JOYP.
pub open spec fn joypad_written(m: MmuView, data: u8) -> MmuView {
    let selected = (m.joypad.joyp & 0xCF) | (data & 0x30);
    MmuView {
        joypad: Joypad { joyp: polled_joyp(selected, m.joypad.keys), ..m.joypad },
        interrupts: InterruptHandler {
            interrupt_flag: if poll_requests_interrupt(selected, m.joypad.keys) {
                m.interrupts.interrupt_flag | interrupt_mask(InterruptType::Joypad)
            } else {
                m.interrupts.interrupt_flag
            },
            ..m.interrupts
        },
        ..m
    }
}

pub open spec fn with_fault(m: MmuView, e: EmulationFault) -> MmuView {
    MmuView { fault: latch(m.fault, e), ..m }
}

pub open spec fn with_hdma(m: MmuView, h: HdmaState) -> MmuView {
    MmuView { system_state: SystemState { hdma_state: h, ..m.system_state }, ..m }
}

/// Whether a write to `address` goes to the cartridge.
pub open spec fn writes_cart(m: MmuView, address: u16) -> bool {
    ||| CART_HEADER_START <= address <= CART_HEADER_END
    ||| (address <= CART_ROM_END && !(address <= BOOT_ROM_END && m.system_state.bootrom_mapped))
    ||| CART_RAM_START <= address <= CART_RAM_END
}

/// What a write of `data` to an address that is neither the cartridge's,
/// nor echo RAM, nor HDMA5 does.
pub open spec fn poke_fn(m: MmuView, address: u16, data: u8) -> MmuView {
    if address <= BOOT_ROM_END {
        // The boot ROM does not take writes
        m
    } else if VRAM_START <= address <= VRAM_END || OAM_START <= address <= OAM_END
        || PPU_REGISTERS_START <= address <= PPU_REGISTERS_END && address != OAM_DMA_ADDRESS
        || address == VRAM_BANK_ADDRESS || PALETTE_START <= address <= PALETTE_END {
        MmuView { ppu: ppu_write(m.ppu, address, data), ..m }
    } else if WRAM_FIXED_START <= address <= WRAM_FIXED_END {
        MmuView { wram: m.wram.update(address - WRAM_FIXED_START, data), ..m }
    } else if WRAM_BANKED_START <= address <= WRAM_BANKED_END {
        MmuView { wram: m.wram.update(banked_index(m.wram_bank, address), data), ..m }
    } else if address == JOYP_ADDRESS {
        if data & 0x30 != 0 {
            joypad_written(m, data)
        } else {
            with_fault(m, EmulationFault::JoypadNoGroupSelected)
        }
    } else if TIMER_START <= address <= TIMER_END {
        MmuView { timer: timer_written(m.timer, address, data), ..m }
    } else if address == INTERRUPT_FLAG_ADDRESS {
        MmuView { interrupts: InterruptHandler { interrupt_flag: data % 32, ..m.interrupts }, ..m }
    } else if address == OAM_DMA_ADDRESS {
        MmuView {
            oam_dma: Some(
                OamDma { pending_cycles: OAM_DMA_CYCLES, next_address: (data as int * 256) as u16 },
            ),
            ..m
        }
    } else if address == KEY1 {
        MmuView {
            system_state: SystemState {
                key1: ((m.system_state.key1 / 128) * 128 + data % 128) as u8,
                ..m.system_state
            },
            ..m
        }
    } else if address == BOOTROM_DISABLE {
        MmuView { system_state: SystemState { bootrom_mapped: data == 0, ..m.system_state }, ..m }
    } else if address == HDMA1 {
        let h = m.system_state.hdma_state;
        with_hdma(m, HdmaState { source_addr: (data as int * 256 + h.source_addr % 256) as u16, ..h })
    } else if address == HDMA2 {
        let h = m.system_state.hdma_state;
        with_hdma(
            m,
            HdmaState { source_addr: ((h.source_addr / 256) * 256 + (data / 16) * 16) as u16, ..h },
        )
    } else if address == HDMA3 {
        let h = m.system_state.hdma_state;
        with_hdma(m, HdmaState { dest_addr: ((data % 32) * 256 + h.dest_addr % 256) as u16, ..h })
    } else if address == HDMA4 {
        let h = m.system_state.hdma_state;
        with_hdma(
            m,
            HdmaState { dest_addr: ((h.dest_addr / 256) * 256 + (data / 16) * 16) as u16, ..h },
        )
    } else if address == WRAM_BANK_SELECT {
        MmuView { wram_bank: (data % 8) as usize, ..m }
    } else if HRAM_START <= address <= HRAM_END {
        MmuView { hram: m.hram.update(address - HRAM_START, data), ..m }
    } else if address == INTERRUPT_ENABLE_ADDRESS {
        MmuView {
            interrupts: InterruptHandler { interrupt_enable: data % 32, ..m.interrupts },
            ..m
        }
    } else {
        // Serial, sound, the unused area and unmapped registers ignore writes
        m
    }
}

/// What a write of `data` to `address` does, for every address but HDMA5.
#[verifier::opaque]
pub open spec fn poked_plain(old: MmuView, new: MmuView, address: u16, data: u8) -> bool
    decreases address,
{
    if writes_cart(old, address) {
        if old.cart.can_write(address) {
            old.cart.written(&new.cart, address, data) && new == MmuView { cart: new.cart, ..old }
        } else {
            new == with_fault(old, EmulationFault::CartridgeAccess { address })
        }
    } else if WRAM_ECHO_START <= address <= WRAM_ECHO_END {
        poked_plain(old, new, (address - WRAM_ECHO_OFFSET) as u16, data)
    } else {
        new == poke_fn(old, address, data)
    }
}

/// One byte of a general-purpose VRAM DMA: read at `src`, written at `dest`.
pub open spec fn gdma_step(old: MmuView, new: MmuView, src: u16, dest: u16) -> bool {
    match peek_spec(old, src) {
        Ok(v) => poked_plain(old, new, dest, v),
        Err(e) => new == with_fault(old, e),
    }
}

/// The first `n` bytes of a general-purpose VRAM DMA from `src` to `dest`.
pub open spec fn gdma_copied(old: MmuView, new: MmuView, src: u16, dest: u16, n: nat) -> bool
    decreases n,
{
    if n == 0 {
        new == old
    } else {
        exists|mid: MmuView|
            gdma_copied(old, mid, src, dest, (n - 1) as nat) && #[trigger] gdma_step(
                mid,
                new,
                ((src + n - 1) % 0x10000) as u16,
                ((dest + n - 1) % 0x10000) as u16,
            )
    }
}

/// The length of a general-purpose VRAM DMA that HDMA5 asks for, in bytes.
pub open spec fn gdma_length(data: u8) -> nat {
    ((data % 128) as nat + 1) * 16
}

/// What a write of `data` to HDMA5 does in CGB mode: with bit 7 clear, an
/// active HDMA is cancelled; else the general-purpose DMA copies its bytes at
/// once and HDMA5 reads 0xFF after it.
pub open spec fn hdma5_written(old: MmuView, new: MmuView, data: u8) -> bool {
    let h = old.system_state.hdma_state;
    if data >= 0x80 {
        // HDMA transfers are not emulated
        new == old
    } else if h.hdma_stat < 0x80 {
        new == with_hdma(old, HdmaState { hdma_stat: h.hdma_stat | 0x80, ..h })
    } else {
        exists|copied: MmuView|
            gdma_copied(
                old,
                copied,
                ((h.source_addr / 16) * 16) as u16,
                (0x8000 + (h.dest_addr % 0x2000 / 16) * 16) as u16,
                gdma_length(data),
            ) && new == with_hdma(
                copied,
                HdmaState { hdma_stat: 0xFF, ..copied.system_state.hdma_state },
            )
    }
}

/// What a write of `data` to `address` does, without the time it takes.
pub open spec fn poked(old: MmuView, new: MmuView, address: u16, data: u8) -> bool {
    if address == HDMA5 {
        if old.system_state.hardware_support != HardwareSupport::DmgCompat {
            hdma5_written(old, new, data)
        } else {
            new == old
        }
    } else {
        poked_plain(old, new, address, data)
    }
}

impl Mmu {
    /// Keep the first fault.
    pub fn raise(&mut self, e: EmulationFault)
        ensures
            final(self)@ == with_fault(old(self)@, e),
            final(self).trace() == old(self).trace(),
    {
        if self.fault.is_none() {
            self.fault = Some(e);
        }
    }

    fn cart_write(&mut self, address: u16, data: u8)
        requires
            mmu_wf(old(self)@),
        ensures
            mmu_wf(final(self)@),
            if old(self).cart.can_write(address) {
                old(self).cart.written(&final(self).cart, address, data) && final(self)@ == (MmuView {
                    cart: final(self).cart,
                    ..old(self)@
                })
            } else {
                final(self)@ == with_fault(old(self)@, EmulationFault::CartridgeAccess { address })
            },
            final(self).trace() == old(self).trace(),
    {
        if self.cart.can_write_at(address) {
            self.cart.write(address, data);
        } else {
            self.raise(EmulationFault::CartridgeAccess { address });
        }
    }

    pub fn wram_banked_write(&mut self, address: u16, data: u8)
        requires
            mmu_wf(old(self)@),
            WRAM_BANKED_START <= address <= WRAM_BANKED_END,
        ensures
            final(self)@ == (MmuView {
                wram: old(self)@.wram.update(banked_index(old(self)@.wram_bank, address), data),
                ..old(self)@
            }),
            final(self).trace() == old(self).trace(),
    {
        let bank = if self.wram_bank == 0x00 {
            1
        } else {
            self.wram_bank
        };
        let index = WRAM_BANK_SIZE * bank + (address - WRAM_BANKED_START) as usize;
        self.wram.set(index, data);
    }

    pub fn disable_bootrom(&mut self, data: u8)
        ensures
            final(self)@ == (MmuView {
                system_state: SystemState { bootrom_mapped: data == 0, ..old(self)@.system_state },
                ..old(self)@
            }),
            final(self).trace() == old(self).trace(),
    {
        self.system_state.bootrom_mapped = data == 0x00;
    }

    /// Write to a memory location without ticking any component; HDMA5 is
    /// left to `poke`.
    #[verifier::spinoff_prover]
    #[verifier::rlimit(60)]
    pub fn poke_plain(&mut self, address: u16, data: u8)
        requires
            mmu_wf(old(self)@),
        ensures
            mmu_wf(final(self)@),
            poked_plain(old(self)@, final(self)@, address, data),
            final(self)@.system_state.total_cycles == old(self)@.system_state.total_cycles,
            final(self).trace() == old(self).trace(),
        decreases address,
    {
        reveal(poked_plain);
        if CART_HEADER_START <= address && address <= CART_HEADER_END {
            self.cart_write(address, data);
        } else if address <= BOOT_ROM_END && self.system_state.bootrom_mapped {
            // The boot ROM does not take writes
        } else if address <= CART_ROM_END {
            self.cart_write(address, data);
        } else if address <= VRAM_END {
            self.ppu.write(address, data);
        } else if address <= CART_RAM_END {
            self.cart_write(address, data);
        } else if address <= WRAM_FIXED_END {
            self.wram.set((address - WRAM_FIXED_START) as usize, data);
        } else if address <= WRAM_BANKED_END {
            self.wram_banked_write(address, data);
        } else if address <= WRAM_ECHO_END {
            self.poke_plain(address - WRAM_ECHO_OFFSET, data);
        } else if address <= OAM_END {
            self.ppu.write(address, data);
        } else if address <= UNUSED_END {
        } else if address == JOYP_ADDRESS {
            if data & 0x30 != 0 {
                self.joypad.write(address, data, &mut self.interrupts);
            } else {
                self.raise(EmulationFault::JoypadNoGroupSelected);
            }
        } else if SERIAL_START <= address && address <= SERIAL_END {
            self.serial.write(address, data);
        } else if TIMER_START <= address && address <= TIMER_END {
            self.timer.write(address, data);
        } else if address == INTERRUPT_FLAG_ADDRESS {
            self.interrupts.write(address, data);
        } else if (SOUND_START <= address && address <= SOUND_END) || (WAVE_START <= address
            && address <= WAVE_END) {
            self.apu.write(address, data);
        } else if address == OAM_DMA_ADDRESS {
            assert((data as u16) << 8u16 == data as int * 256) by {
                crate::bits::lemma_u8_bits(data);
            }
            let oam_dma = OamDma {
                pending_cycles: OAM_DMA_CYCLES,
                next_address: (data as u16) << 8u16,
            };
            self.oam_dma = Some(oam_dma);
        } else if (PPU_REGISTERS_START <= address && address <= PPU_REGISTERS_END) || address
            == VRAM_BANK_ADDRESS {
            self.ppu.write(address, data);
        } else if address == KEY1 {
            let old_key1 = self.system_state.key1;
            let key1 = (old_key1 & 0x80) | (data & 0x7F);
            assert(key1 == (old_key1 / 128) * 128 + data % 128) by (bit_vector)
                requires
                    key1 == (old_key1 & 0x80) | (data & 0x7F),
            ;
            self.system_state.key1 = key1;
        } else if address == BOOTROM_DISABLE {
            self.disable_bootrom(data);
        } else if address == HDMA1 {
            self.system_state.hdma_state.write_src_high(data);
        } else if address == HDMA2 {
            self.system_state.hdma_state.write_src_low(data);
        } else if address == HDMA3 {
            self.system_state.hdma_state.write_dest_high(data);
        } else if address == HDMA4 {
            self.system_state.hdma_state.write_dest_low(data);
        } else if address == HDMA5 {
        } else if PALETTE_START <= address && address <= PALETTE_END {
            self.ppu.write(address, data);
        } else if address == WRAM_BANK_SELECT {
            assert(data & 0b111 == data % 8) by {
                crate::bits::lemma_u8_bits(data);
            }
            self.wram_bank = (data & 0b111) as usize;
        } else if HRAM_START <= address && address <= HRAM_END {
            self.hram.set((address - HRAM_START) as usize, data);
        } else if address == INTERRUPT_ENABLE_ADDRESS {
            self.interrupts.write(address, data);
        } else {
            // Unmapped addresses ignore writes
        }
    }
}

impl Mmu {
    /// A write to HDMA5 in CGB mode: with bit 7 clear, cancel an active HDMA or
    /// run a general-purpose DMA into VRAM at once.
    #[verifier::spinoff_prover]
    #[verifier::rlimit(40)]
    pub fn on_hdma5_write(&mut self, data: u8)
        requires
            mmu_wf(old(self)@),
        ensures
            mmu_wf(final(self)@),
            hdma5_written(old(self)@, final(self)@, data),
            final(self)@.system_state.total_cycles == old(self)@.system_state.total_cycles,
            final(self).trace() == old(self).trace(),
    {
        let ghost m0 = self@;
        assert((data & 0x80 == 0) == (data < 0x80)) by {
            crate::bits::lemma_u8_bits(data);
        }
        if (data & 0x80) == 0 {
            // GDMA
            if self.system_state.hdma_state.is_hdma_active() {
                // If HDMA is active, cancel it keeping the remaining length
                let stat = self.system_state.hdma_state.hdma_stat;
                self.system_state.hdma_state.hdma_stat = stat | 0x80;
            } else {
                assert((data & 0x7F) == data % 128) by {
                    crate::bits::lemma_u8_bits(data);
                }
                let len: usize = ((data & 0x7F) as usize + 1) * 0x10;
                let source = self.system_state.hdma_state.source_addr;
                let dest = self.system_state.hdma_state.dest_addr;
                let src0 = source & 0xFFF0;
                let dest0 = (dest & 0x1FF0) | 0x8000;
                assert(src0 == (source / 16) * 16) by (bit_vector)
                    requires
                        src0 == source & 0xFFF0,
                ;
                assert(dest0 == 0x8000 + (dest % 0x2000 / 16) * 16) by (bit_vector)
                    requires
                        dest0 == (dest & 0x1FF0) | 0x8000,
                ;
                let mut src_addr = src0;
                let mut dest_addr = dest0;
                let mut i: usize = 0;
                while i < len
                    invariant
                        mmu_wf(self@),
                        i <= len,
                        len == gdma_length(data),
                        len <= 0x800,
                        dest0 <= 0x9FF0,
                        src_addr == (src0 + i) % 0x10000,
                        dest_addr == dest0 + i,
                        gdma_copied(m0, self@, src0, dest0, i as nat),
                        self@.system_state.total_cycles == m0.system_state.total_cycles,
                        self.trace() == old(self).trace(),
                    decreases len - i,
                {
                    let ghost mid = self@;
                    match self.peek(src_addr) {
                        Ok(value) => self.poke_plain(dest_addr, value),
                        Err(e) => self.raise(e),
                    }
                    assert(gdma_copied(m0, mid, src0, dest0, i as nat) && gdma_step(
                        mid,
                        self@,
                        ((src0 + (i + 1) - 1) % 0x10000) as u16,
                        ((dest0 + (i + 1) - 1) % 0x10000) as u16,
                    ));
                    src_addr = src_addr.wrapping_add(1);
                    dest_addr = dest_addr + 1;
                    i = i + 1;
                }
                let ghost copied = self@;
                self.system_state.hdma_state.hdma_stat = 0xFF;
                assert(self@ == with_hdma(
                    copied,
                    HdmaState { hdma_stat: 0xFF, ..copied.system_state.hdma_state },
                ));
            }
        } else {
            // HDMA transfers are not emulated
        }
    }

    /// Write to a memory location without ticking any component.
    pub fn poke(&mut self, address: u16, data: u8)
        requires
            mmu_wf(old(self)@),
        ensures
            mmu_wf(final(self)@),
            poked(old(self)@, final(self)@, address, data),
            final(self)@.system_state.total_cycles == old(self)@.system_state.total_cycles,
            final(self).trace() == old(self).trace(),
    {
        if address == HDMA5 {
            if self.system_state.hardware_support != HardwareSupport::DmgCompat {
                self.on_hdma5_write(data);
            }
        } else {
            self.poke_plain(address, data);
        }
    }
}

// Time ------------------------------------------------------------------------------------------

/// One m-cycle of an OAM DMA in progress: one byte copied into OAM.
pub open spec fn oam_dma_step(m: MmuView) -> MmuView {
    match m.oam_dma {
        None => m,
        Some(d) => {
            let dest = (0xFE00 + d.next_address % 256) as u16;
            let m1 = match peek_spec(m, d.next_address) {
                Ok(v) => MmuView { ppu: ppu_write(m.ppu, dest, v), ..m },
                Err(e) => with_fault(m, e),
            };
            MmuView {
                oam_dma: if d.pending_cycles == 0 {
                    None
                } else {
                    Some(
                        OamDma {
                            pending_cycles: (d.pending_cycles - 1) as u64,
                            next_address: (d.next_address + 1) as u16,
                        },
                    )
                },
                ..m1
            }
        },
    }
}

/// The joypad and the interrupt flag after one m-cycle of the joypad.
pub open spec fn joypad_tick_spec(j: Joypad, ints: InterruptHandler) -> (Joypad, InterruptHandler) {
    let c = j.cycles + 4;
    if c < JOYPAD_POLL_CYCLES {
        (Joypad { cycles: c as u64, ..j }, ints)
    } else {
        (
            Joypad {
                cycles: (c % JOYPAD_POLL_CYCLES as int) as u64,
                joyp: polled_joyp(j.joyp, j.keys),
                ..j
            },
            InterruptHandler {
                interrupt_flag: if poll_requests_interrupt(j.joyp, j.keys) {
                    ints.interrupt_flag | interrupt_mask(InterruptType::Joypad)
                } else {
                    ints.interrupt_flag
                },
                ..ints
            },
        )
    }
}

/// One m-cycle of the whole system: the cycle counter, an OAM DMA step, the
/// timer, the joypad and the PPU, in that order.
#[verifier::opaque]
pub open spec fn tick_spec(m: MmuView) -> MmuView {
    let m0 = MmuView {
        system_state: SystemState {
            total_cycles: (m.system_state.total_cycles + 1) as u64,
            ..m.system_state
        },
        ..m
    };
    let m1 = oam_dma_step(m0);
    let (t, env) = timer_m_cycle(m1.timer, surroundings(m1.system_state, m1.interrupts));
    let m2 = MmuView {
        timer: t,
        system_state: SystemState {
            key1: env.key1,
            execution_state: env.execution_state,
            ..m1.system_state
        },
        interrupts: InterruptHandler { interrupt_flag: env.interrupt_flag, ..m1.interrupts },
        ..m1
    };
    let (j, ints) = joypad_tick_spec(m2.joypad, m2.interrupts);
    let m3 = MmuView { joypad: j, interrupts: ints, ..m2 };
    let speed: u64 = if m3.system_state.key1 >= 0x80 { 2 } else { 1 };
    let (v, flag) = ppu_dots(m3.ppu, m3.interrupts.interrupt_flag, (DOTS_PER_TICK / speed) as nat);
    MmuView { ppu: v, interrupts: InterruptHandler { interrupt_flag: flag, ..m3.interrupts }, ..m3 }
}

/// A read through the bus: one m-cycle passes, then the byte is read; during
/// an OAM DMA only HRAM can be read and the rest reads as 0xFF.
pub open spec fn bus_read_spec(m: MmuView, address: u16) -> (MmuView, u8) {
    let m1 = tick_spec(m);
    if m1.oam_dma is Some {
        if HRAM_START <= address <= HRAM_END {
            (m1, m1.hram[address - HRAM_START])
        } else {
            (m1, 0xFF)
        }
    } else {
        match peek_spec(m1, address) {
            Ok(v) => (m1, v),
            Err(e) => (with_fault(m1, e), 0xFF),
        }
    }
}

/// A write through the bus: one m-cycle passes, then the byte is written;
/// during an OAM DMA only HRAM can be written.
pub open spec fn bus_written(old: MmuView, new: MmuView, address: u16, data: u8) -> bool {
    let m1 = tick_spec(old);
    if m1.oam_dma is Some {
        if HRAM_START <= address <= HRAM_END {
            new == MmuView { hram: m1.hram.update(address - HRAM_START, data), ..m1 }
        } else {
            new == m1
        }
    } else {
        poked(m1, new, address, data)
    }
}

/// A read that takes no time; a fault reads as 0xFF.
pub open spec fn peeked(m: MmuView, address: u16) -> (MmuView, u8) {
    match peek_spec(m, address) {
        Ok(v) => (m, v),
        Err(e) => (with_fault(m, e), 0xFF),
    }
}

impl Mmu {
    /// One m-cycle of an OAM DMA, if one is in progress.
    pub fn tick_oam_dma(&mut self)
        requires
            mmu_wf(old(self)@),
        ensures
            mmu_wf(final(self)@),
            final(self)@ == oam_dma_step(old(self)@),
            final(self).trace() == old(self).trace(),
    {
        // Perform DMA
        if let Some(dma) = self.oam_dma {
            let next_address = dma.next_address;
            let pending_cycles = dma.pending_cycles;
            assert((0xFE00u16 | (next_address & 0x00FF)) == 0xFE00 + next_address % 256) by {
                crate::bits::lemma_u16_bits(next_address);
            }
            let dest_address = 0xFE00 | (next_address & 0x00FF);
            match self.peek(next_address) {
                Ok(data) => self.ppu.write(dest_address, data),
                Err(e) => self.raise(e),
            }
            if pending_cycles == 0 {
                self.oam_dma = None;
            } else {
                self.oam_dma = Some(
                    OamDma { pending_cycles: pending_cycles - 1, next_address: next_address + 1 },
                );
            }
        }
    }

    pub fn oam_dma_in_progress(&self) -> (active: bool)
        ensures
            active == self@.oam_dma is Some,
    {
        self.oam_dma.is_some()
    }

    /// Let one m-cycle pass for every component.
    #[verifier::spinoff_prover]
    fn advance(&mut self)
        requires
            mmu_wf(old(self)@),
            old(self)@.system_state.total_cycles < u64::MAX,
        ensures
            mmu_wf(final(self)@),
            final(self)@ == tick_spec(old(self)@),
            final(self)@.system_state.total_cycles == old(self)@.system_state.total_cycles + 1,
            final(self).trace() == old(self).trace(),
    {
        reveal(tick_spec);
        self.system_state.total_cycles = self.system_state.total_cycles + 1;
        self.tick_oam_dma();
        self.timer.tick(&mut self.system_state, &mut self.interrupts);
        self.joypad.tick(&mut self.interrupts);
        let speed = self.system_state.speed_multiplier();
        self.ppu.tick(speed, &mut self.interrupts);
        self.apu.tick(speed);
    }
}

/// The memory map right after power-on, with `cart` inserted and the boot ROM
/// mapped.
pub open spec fn power_on(m: MmuView, cart: Cartridge, boot_rom: Seq<u8>) -> bool {
    &&& m.cart == cart
    &&& m.boot_rom == boot_rom
    &&& m.wram == Seq::new(WRAM_SIZE as nat, |i: int| 0u8)
    &&& m.wram_bank == 1
    &&& m.hram == Seq::new(HRAM_SIZE as nat, |i: int| 0u8)
    &&& m.oam_dma is None
    &&& m.fault is None
    &&& m.system_state == (SystemState {
        execution_state: ExecutionState::ExecutingProgram,
        hardware_support: cart.header.hardware_supported,
        key1: 0x00,
        bootrom_mapped: true,
        hdma_state: HdmaState { source_addr: 0xFFFF, dest_addr: 0xFFFF, hdma_stat: 0x00 },
        carry_over_cycles: 0,
        total_cycles: 0,
    })
    &&& m.interrupts.interrupt_enable == 0 && m.interrupts.interrupt_flag == 0
    &&& m.joypad == (Joypad { keys: 0xFF, joyp: 0xFF, cycles: 0 })
    &&& m.timer.div == 0 && m.timer.tima == 0 && m.timer.tma == 0 && m.timer.tac == 0
    &&& m.ppu.vram_bank == 0xFE && m.ppu.lcdc == 0
}

/// `n` zero bytes.
fn zeroed(n: usize) -> (bytes: Vec<u8>)
    ensures
        bytes@ == Seq::new(n as nat, |i: int| 0u8),
{
    let mut bytes: Vec<u8> = Vec::new();
    let mut i: usize = 0;
    while i < n
        invariant
            i <= n,
            bytes@ == Seq::new(i as nat, |j: int| 0u8),
        decreases n - i,
    {
        bytes.push(0);
        i = i + 1;
        assert(bytes@ =~= Seq::new(i as nat, |j: int| 0u8));
    }
    bytes
}

impl Mmu {
    pub fn new(cart: Cartridge, boot_rom: Vec<u8>) -> (mmu: Self)
        requires
            boot_rom@.len() == BOOT_ROM_SIZE,
        ensures
            mmu_wf(mmu@),
            power_on(mmu@, cart, boot_rom@),
            mmu.trace() == Seq::<BusEvent>::empty(),
            mmu.cycles_counted(),
    {
        // 32KB
        let wram = zeroed(WRAM_SIZE);
        let wram_bank = 0x1;
        let hram = zeroed(HRAM_SIZE);
        let serial = Serial::new();
        let timer = Timer::new();
        let ppu = Ppu::new();
        let apu = Apu::new();
        let joypad = Joypad::new();
        let hardware_support = cart.header.hardware_supported;
        let system_state = SystemState {
            execution_state: ExecutionState::ExecutingProgram,
            hardware_support,
            carry_over_cycles: 0,
            total_cycles: 0,
            key1: 0x00,
            bootrom_mapped: true,
            hdma_state: HdmaState { source_addr: 0xFFFF, dest_addr: 0xFFFF, hdma_stat: 0x00 },
        };
        Mmu {
            cart,
            ppu,
            apu,
            joypad,
            timer,
            serial,
            interrupts: InterruptHandler { interrupt_enable: 0, interrupt_flag: 0 },
            system_state,
            wram,
            wram_bank,
            hram,
            oam_dma: None,
            boot_rom,
            fault: None,
            events: Ghost(Seq::empty()),
        }
    }

    pub fn keydown(&mut self, key: JoypadKeys)
        ensures
            final(self)@ == (MmuView {
                joypad: Joypad { keys: old(self)@.joypad.keys & !key_code(key), ..old(self)@.joypad },
                ..old(self)@
            }),
            final(self).trace() == old(self).trace(),
    {
        self.joypad.keydown(key);
    }

    pub fn keyup(&mut self, key: JoypadKeys)
        ensures
            final(self)@ == (MmuView {
                joypad: Joypad { keys: old(self)@.joypad.keys | key_code(key), ..old(self)@.joypad },
                ..old(self)@
            }),
            final(self).trace() == old(self).trace(),
    {
        self.joypad.keyup(key);
    }

    /// The cartridge RAM to keep in a save file, if the cartridge has RAM.
    pub fn save_ram(&self) -> (ram: Option<&Vec<u8>>)
        ensures
            ref_ram_view(ram) == match self@.cart.mbc {
                MbcKind::NoMbc(_) => None,
                MbcKind::Mbc1(m) => ram_view(m.ram),
                MbcKind::Mbc5(m) => ram_view(m.ram),
            },
    {
        self.cart.save_ram()
    }

    pub fn total_cycles(&self) -> (cycles: u64)
        ensures
            cycles == self@.system_state.total_cycles,
    {
        self.system_state.total_cycles
    }

    pub fn carry_over_cycles(&self) -> (cycles: u64)
        ensures
            cycles == self@.system_state.carry_over_cycles,
    {
        self.system_state.carry_over_cycles
    }

    pub fn set_carry_over_cycles(&mut self, cycles: u64)
        ensures
            final(self)@ == (MmuView {
                system_state: SystemState { carry_over_cycles: cycles, ..old(self)@.system_state },
                ..old(self)@
            }),
            final(self).trace() == old(self).trace(),
    {
        self.system_state.carry_over_cycles = cycles;
    }

    /// 2 in CGB double speed mode, 1 otherwise.
    pub fn speed_multiplier(&self) -> (multiplier: u64)
        ensures
            multiplier == (if self@.system_state.key1 >= 0x80 { 2int } else { 1int }),
    {
        self.system_state.speed_multiplier()
    }

    /// The first access the emulated hardware could not serve, if any.
    pub fn fault(&self) -> (fault: Option<EmulationFault>)
        ensures
            fault == self@.fault,
    {
        self.fault
    }

    /// Copy the frame the PPU has rendered into `buffer`.
    pub fn copy_frame(&self, buffer: &mut [u8])
        requires
            mmu_wf(self@),
            old(buffer)@.len() == FRAMEBUFFER_SIZE,
        ensures
            final(buffer)@ == self@.ppu.framebuffer,
    {
        self.ppu.copy_framebuffer_to_draw_target(buffer);
    }
}

impl SystemBus for Mmu {
    open spec fn bus_events(&self) -> Seq<BusEvent> {
        self.trace()
    }

    open spec fn cycle_budget(&self) -> nat {
        (u64::MAX - self@.system_state.total_cycles) as nat
    }

    open spec fn bus_wf(&self) -> bool {
        mmu_wf(self@) && self.cycles_counted()
    }

    /// Read and Write for Mmu take `&mut self` because they tick every
    /// component first: the other components keep up with the CPU during
    /// each memory access.
    fn read(&mut self, address: u16) -> (data: u8)
        ensures
            (final(self)@, data) == bus_read_spec(old(self)@, address),
    {
        self.advance();
        let data = if self.oam_dma_in_progress() {
            // Only HRAM is accessible during OAM DMA
            if HRAM_START <= address && address <= HRAM_END {
                self.hram[(address - HRAM_START) as usize]
            } else {
                0xFF
            }
        } else {
            match self.peek(address) {
                Ok(value) => value,
                Err(e) => {
                    self.raise(e);
                    0xFF
                },
            }
        };
        self.events = Ghost(self.events@.push(BusEvent::Read { address, data }));
        proof {
            lemma_mcycles_push(old(self).trace(), BusEvent::Read { address, data });
        }
        data
    }

    #[verifier::spinoff_prover]
    fn write(&mut self, address: u16, data: u8)
        ensures
            bus_written(old(self)@, final(self)@, address, data),
    {
        self.advance();
        if self.oam_dma_in_progress() {
            // Only HRAM is accessible during OAM DMA
            if HRAM_START <= address && address <= HRAM_END {
                self.hram.set((address - HRAM_START) as usize, data);
            }
        } else {
            self.poke(address, data);
        }
        self.events = Ghost(self.events@.push(BusEvent::Write { address, data }));
        proof {
            lemma_mcycles_push(old(self).trace(), BusEvent::Write { address, data });
        }
    }

    fn tick(&mut self)
        ensures
            final(self)@ == tick_spec(old(self)@),
    {
        self.advance();
        self.events = Ghost(self.events@.push(BusEvent::Tick));
        proof {
            lemma_mcycles_push(old(self).trace(), BusEvent::Tick);
        }
    }

    /// Raw Read: Read the contents of a memory location without ticking all the
    /// components
    fn unticked_read(&mut self, address: u16) -> (data: u8)
        ensures
            (final(self)@, data) == peeked(old(self)@, address),
    {
        let data = match self.peek(address) {
            Ok(value) => value,
            Err(e) => {
                self.raise(e);
                0xFF
            },
        };
        self.events = Ghost(self.events@.push(BusEvent::Peek { address, data }));
        proof {
            lemma_mcycles_push(old(self).trace(), BusEvent::Peek { address, data });
        }
        data
    }

    fn execution_state(&mut self) -> (state: ExecutionState)
        ensures
            state == old(self)@.system_state.execution_state,
            final(self)@ == old(self)@,
    {
        let state = self.system_state.execution_state;
        self.events = Ghost(self.events@.push(BusEvent::ExecutionState(state)));
        proof {
            lemma_mcycles_push(old(self).trace(), BusEvent::ExecutionState(state));
        }
        state
    }

    fn set_execution_state(&mut self, state: ExecutionState)
        ensures
            final(self)@ == (MmuView {
                system_state: SystemState { execution_state: state, ..old(self)@.system_state },
                ..old(self)@
            }),
    {
        self.system_state.execution_state = state;
        self.events = Ghost(self.events@.push(BusEvent::SetExecutionState(state)));
        proof {
            lemma_mcycles_push(old(self).trace(), BusEvent::SetExecutionState(state));
        }
    }

    fn key1(&mut self) -> (value: u8)
        ensures
            value == old(self)@.system_state.key1,
            final(self)@ == old(self)@,
    {
        let value = self.system_state.key1;
        self.events = Ghost(self.events@.push(BusEvent::Key1(value)));
        proof {
            lemma_mcycles_push(old(self).trace(), BusEvent::Key1(value));
        }
        value
    }

    fn reset_interrupt_request(&mut self, interrupt: InterruptType)
        ensures
            final(self)@ == (MmuView {
                interrupts: InterruptHandler {
                    interrupt_flag: old(self)@.interrupts.interrupt_flag & !interrupt_mask(interrupt),
                    ..old(self)@.interrupts
                },
                ..old(self)@
            }),
    {
        self.interrupts.reset_interrupt_request(interrupt);
        self.events = Ghost(self.events@.push(BusEvent::Acknowledge(interrupt)));
        proof {
            lemma_mcycles_push(old(self).trace(), BusEvent::Acknowledge(interrupt));
        }
    }

    fn has_cycle_budget(&self, cycles: u64) -> (enough: bool)
    {
        cycles <= u64::MAX - self.system_state.total_cycles
    }
}

// Laws ------------------------------------------------------------------------------------------

/// Work RAM (fixed and banked) and high RAM give back what was written to
/// them.
pub proof fn lemma_ram_write_then_read(old: MmuView, new: MmuView, address: u16, data: u8)
    requires
        mmu_wf(old),
        WRAM_FIXED_START <= address <= WRAM_BANKED_END || HRAM_START <= address <= HRAM_END,
        poked(old, new, address, data),
    ensures
        peek_spec(new, address) == Ok::<u8, EmulationFault>(data),
{
    reveal(peek_spec);
    reveal(poked_plain);
}

/// `n` m-cycles of an OAM DMA, with nothing else going on.
pub open spec fn dma_steps(m: MmuView, n: nat) -> MmuView
    decreases n,
{
    if n == 0 {
        m
    } else {
        oam_dma_step(dma_steps(m, (n - 1) as nat))
    }
}

/// A read does not see OAM entries other than the one it addresses, the
/// fault latch or the OAM DMA state.
proof fn lemma_peek_frame(m: MmuView, m2: MmuView, a: u16)
    requires
        m2.cart == m.cart,
        m2.system_state == m.system_state,
        m2.wram == m.wram,
        m2.wram_bank == m.wram_bank,
        m2.hram == m.hram,
        m2.boot_rom == m.boot_rom,
        m2.joypad == m.joypad,
        m2.timer == m.timer,
        m2.interrupts == m.interrupts,
        (PpuView { oam: m.ppu.oam, ..m2.ppu }) == m.ppu,
        OAM_START <= a <= OAM_END ==> m2.ppu.oam[a - OAM_START] == m.ppu.oam[a - OAM_START],
    ensures
        peek_spec(m2, a) == peek_spec(m, a),
    decreases a,
{
    reveal(peek_spec);
    if WRAM_ECHO_START <= a <= WRAM_ECHO_END {
        lemma_peek_frame(m, m2, (a - WRAM_ECHO_OFFSET) as u16);
    }
}

/// How far an OAM DMA from `page` that started in `m` has got after `n`
/// m-cycles, in state `s`.
pub open spec fn dma_progress(m: MmuView, s: MmuView, page: u8, n: nat) -> bool {
    &&& s.cart == m.cart
    &&& s.system_state == m.system_state
    &&& s.wram == m.wram
    &&& s.wram_bank == m.wram_bank
    &&& s.hram == m.hram
    &&& s.boot_rom == m.boot_rom
    &&& s.joypad == m.joypad
    &&& s.timer == m.timer
    &&& s.interrupts == m.interrupts
    &&& (PpuView { oam: m.ppu.oam, ..s.ppu }) == m.ppu
    &&& s.ppu.oam.len() == OAM_SIZE
    &&& s.oam_dma == if n <= 160 {
        Some(OamDma { pending_cycles: (160 - n) as u64, next_address: (page as int * 256 + n) as u16 })
    } else {
        None::<OamDma>
    }
    &&& forall|i: int|
        0 <= i < 160 && i < n && #[trigger] peek_spec(m, (page as int * 256 + i) as u16) is Ok
            ==> peek_spec(m, (page as int * 256 + i) as u16) == Ok::<u8, EmulationFault>(s.ppu.oam[i])
    &&& forall|i: int| n <= i < 160 ==> #[trigger] s.ppu.oam[i] == m.ppu.oam[i]
}

proof fn lemma_dma_progress(m: MmuView, page: u8, n: nat)
    requires
        mmu_wf(m),
        m.oam_dma == Some(OamDma { pending_cycles: OAM_DMA_CYCLES, next_address: (page as int * 256) as u16 }),
        n <= 161,
    ensures
        dma_progress(m, dma_steps(m, n), page, n),
    decreases n,
{
    if n > 0 {
        let j = n - 1;
        lemma_dma_progress(m, page, j as nat);
        let s = dma_steps(m, j as nat);
        let src = (page as int * 256 + j) as u16;
        assert(src as int == page as int * 256 + j);
        assert(src % 256 == j);
        assert(OAM_START <= src <= OAM_END ==> src - OAM_START == j);
        lemma_peek_frame(m, s, src);
        let s2 = dma_steps(m, n);
        assert(s2 == oam_dma_step(s));
        assert forall|i: int|
            0 <= i < 160 && i < n && #[trigger] peek_spec(m, (page as int * 256 + i) as u16) is Ok
                implies peek_spec(m, (page as int * 256 + i) as u16) == Ok::<u8, EmulationFault>(s2.ppu.oam[i]) by {
            if i < j {
                assert(s2.ppu.oam[i] == s.ppu.oam[i]);
            }
        }
        assert(dma_progress(m, s2, page, n));
    }
}

/// Writing page P to 0xFF46 starts an OAM DMA from P * 0x100.
pub proof fn lemma_oam_dma_start(old: MmuView, new: MmuView, page: u8)
    requires
        poked(old, new, OAM_DMA_ADDRESS, page),
    ensures
        new.oam_dma == Some(OamDma { pending_cycles: OAM_DMA_CYCLES, next_address: (page as int * 256) as u16 }),
{
    reveal(poked_plain);
}

/// An OAM DMA from page P copies, over its 161 m-cycles, the byte at
/// P * 0x100 + i to OAM entry i, for each of the 160 entries, and then ends.
pub proof fn lemma_oam_dma_copies_page(m: MmuView, page: u8)
    requires
        mmu_wf(m),
        m.oam_dma == Some(OamDma { pending_cycles: OAM_DMA_CYCLES, next_address: (page as int * 256) as u16 }),
    ensures
        dma_steps(m, 161).oam_dma is None,
        forall|i: int|
            0 <= i < 160 && #[trigger] peek_spec(m, (page as int * 256 + i) as u16) is Ok ==> peek_spec(
                m,
                (page as int * 256 + i) as u16,
            ) == Ok::<u8, EmulationFault>(dma_steps(m, 161).ppu.oam[i]),
{
    lemma_dma_progress(m, page, 161);
}

/// VRAM (in the selected bank) and OAM give back what was written to them.
pub proof fn lemma_video_write_then_read(old: MmuView, new: MmuView, address: u16, data: u8)
    requires
        mmu_wf(old),
        VRAM_START <= address <= VRAM_END || OAM_START <= address <= OAM_END,
        poked(old, new, address, data),
    ensures
        peek_spec(new, address) == Ok::<u8, EmulationFault>(data),
{
    reveal(peek_spec);
    reveal(poked_plain);
}

/// Echo RAM (0xE000-0xFDFF) mirrors work RAM 0x2000 below it: a read there
/// reads the work RAM byte, and a write there writes it.
pub proof fn lemma_echo_mirror(m: MmuView, new: MmuView, address: u16, data: u8)
    requires
        WRAM_ECHO_START <= address <= WRAM_ECHO_END,
    ensures
        WRAM_FIXED_START <= address - WRAM_ECHO_OFFSET <= WRAM_BANKED_END,
        peek_spec(m, address) == peek_spec(m, (address - WRAM_ECHO_OFFSET) as u16),
        poked(m, new, address, data) == poked(m, new, (address - WRAM_ECHO_OFFSET) as u16, data),
{
    reveal(peek_spec);
    reveal(poked_plain);
}

/// Writing KEY1 keeps its speed bit (bit 7) and sets the other bits.
pub proof fn lemma_key1_write_keeps_speed(old: MmuView, new: MmuView, data: u8)
    requires
        poked(old, new, KEY1, data),
    ensures
        new.system_state.key1 >= 0x80 <==> old.system_state.key1 >= 0x80,
        new.system_state.key1 % 128 == data % 128,
{
    reveal(poked_plain);
}

/// Once the boot ROM is disabled, the low addresses read the cartridge.
pub proof fn lemma_boot_rom_unmapped(old: MmuView, new: MmuView, data: u8, address: u16)
    requires
        poked(old, new, BOOTROM_DISABLE, data),
        data != 0,
        address <= CART_ROM_END,
    ensures
        peek_spec(new, address) == cart_peek(new, address),
        new.cart == old.cart,
{
    reveal(peek_spec);
    reveal(poked_plain);
}

/// Writing HDMA1 then HDMA2 sets the VRAM DMA source to their bytes with the
/// lower four bits clear; HDMA3 then HDMA4 set the destination the same way,
/// within VRAM's 8KiB.
pub proof fn lemma_hdma_address_bytes(
    m0: MmuView,
    m1: MmuView,
    m2: MmuView,
    m3: MmuView,
    m4: MmuView,
    src_high: u8,
    src_low: u8,
    dest_high: u8,
    dest_low: u8,
)
    requires
        poked(m0, m1, HDMA1, src_high),
        poked(m1, m2, HDMA2, src_low),
        poked(m2, m3, HDMA3, dest_high),
        poked(m3, m4, HDMA4, dest_low),
    ensures
        m4.system_state.hdma_state.source_addr == src_high as int * 256 + (src_low as int / 16) * 16,
        m4.system_state.hdma_state.dest_addr == (dest_high as int % 32) * 256 + (dest_low as int / 16)
            * 16,
{
    lemma_hdma_register_write(m0, m1, HDMA1, src_high);
    lemma_hdma_register_write(m1, m2, HDMA2, src_low);
    lemma_hdma_register_write(m2, m3, HDMA3, dest_high);
    lemma_hdma_register_write(m3, m4, HDMA4, dest_low);
}

/// What a write to one of HDMA1-HDMA4 does to the VRAM DMA addresses.
pub proof fn lemma_hdma_register_write(old: MmuView, new: MmuView, address: u16, data: u8)
    requires
        HDMA1 <= address <= HDMA4,
        poked(old, new, address, data),
    ensures
        ({
            let h = old.system_state.hdma_state;
            let n = new.system_state.hdma_state;
            &&& address == HDMA1 ==> n.source_addr == data as int * 256 + h.source_addr as int % 256
                && n.dest_addr == h.dest_addr
            &&& address == HDMA2 ==> n.source_addr == (h.source_addr as int / 256) * 256 + (data as int
                / 16) * 16 && n.dest_addr == h.dest_addr
            &&& address == HDMA3 ==> n.dest_addr == (data as int % 32) * 256 + h.dest_addr as int % 256
                && n.source_addr == h.source_addr
            &&& address == HDMA4 ==> n.dest_addr == (h.dest_addr as int / 256) * 256 + (data as int / 16)
                * 16 && n.source_addr == h.source_addr
        }),
{
    reveal(poked_plain);
}

} // verus!
