use vstd::prelude::*;

verus! {

pub const INTERRUPT_FLAG_ADDRESS: u16 = 0xFF0F;

pub const INTERRUPT_ENABLE_ADDRESS: u16 = 0xFFFF;

/// The five interrupt sources of the Game Boy, in priority order.
#[derive(Debug, Copy, Clone, PartialEq, Eq, Structural)]
pub enum InterruptType {
    Vblank,
    LcdStat,
    Timer,
    Serial,
    Joypad,
}

/// The priority index (bit position in IF/IE) of an interrupt.
pub open spec fn interrupt_index(interrupt: InterruptType) -> nat {
    match interrupt {
        InterruptType::Vblank => 0,
        InterruptType::LcdStat => 1,
        InterruptType::Timer => 2,
        InterruptType::Serial => 3,
        InterruptType::Joypad => 4,
    }
}

/// The IF/IE bit of an interrupt.
pub open spec fn interrupt_mask(interrupt: InterruptType) -> u8 {
    match interrupt {
        InterruptType::Vblank => 0x01,
        InterruptType::LcdStat => 0x02,
        InterruptType::Timer => 0x04,
        InterruptType::Serial => 0x08,
        InterruptType::Joypad => 0x10,
    }
}

/// The address the CPU jumps to when servicing an interrupt.
pub open spec fn interrupt_vector(interrupt: InterruptType) -> u16 {
    match interrupt {
        InterruptType::Vblank => 0x40,
        InterruptType::LcdStat => 0x48,
        InterruptType::Timer => 0x50,
        InterruptType::Serial => 0x58,
        InterruptType::Joypad => 0x60,
    }
}

impl InterruptType {
    pub fn from_index(interrupt_index: u32) -> (interrupt: Self)
        requires
            interrupt_index < 5,
        ensures
            crate::interrupts::interrupt_index(interrupt) == interrupt_index,
    {
        match interrupt_index {
            0 => InterruptType::Vblank,
            1 => InterruptType::LcdStat,
            2 => InterruptType::Timer,
            3 => InterruptType::Serial,
            _ => InterruptType::Joypad,
        }
    }

    pub fn vector(&self) -> (address: u16)
        ensures
            address == interrupt_vector(*self),
            address == 0x40 + 8 * interrupt_index(*self),
    {
        match self {
            InterruptType::Vblank => 0x40,
            InterruptType::LcdStat => 0x48,
            InterruptType::Timer => 0x50,
            InterruptType::Serial => 0x58,
            InterruptType::Joypad => 0x60,
        }
    }

    /// The bit of this interrupt in the IF and IE registers.
    pub fn mask(&self) -> (bit: u8)
        ensures
            bit == interrupt_mask(*self),
    {
        match self {
            InterruptType::Vblank => 0x01,
            InterruptType::LcdStat => 0x02,
            InterruptType::Timer => 0x04,
            InterruptType::Serial => 0x08,
            InterruptType::Joypad => 0x10,
        }
    }
}

/// The interrupt enable (IE) and interrupt flag (IF) registers.
#[derive(Debug, Copy, Clone)]
pub struct InterruptHandler {
    pub interrupt_enable: u8,
    pub interrupt_flag: u8,
}

impl Default for InterruptHandler {
    fn default() -> (handler: Self)
        ensures
            handler.interrupt_enable == 0,
            handler.interrupt_flag == 0,
    {
        InterruptHandler { interrupt_enable: 0, interrupt_flag: 0 }
    }
}

impl InterruptHandler {
    pub fn is_interrupt_enabled(&self, interrupt: InterruptType) -> (enabled: bool)
        ensures
            enabled == (self.interrupt_enable & interrupt_mask(interrupt) != 0),
    {
        self.interrupt_enable & interrupt.mask() != 0
    }

    pub fn disable_interrupt(&mut self, interrupt: InterruptType)
        ensures
            final(self).interrupt_enable == old(self).interrupt_enable & !interrupt_mask(interrupt),
            final(self).interrupt_flag == old(self).interrupt_flag,
    {
        self.interrupt_enable = self.interrupt_enable & !interrupt.mask();
    }

    pub fn request_interrupt(&mut self, interrupt: InterruptType)
        ensures
            final(self).interrupt_flag == old(self).interrupt_flag | interrupt_mask(interrupt),
            final(self).interrupt_enable == old(self).interrupt_enable,
    {
        self.interrupt_flag = self.interrupt_flag | interrupt.mask();
    }

    pub fn reset_interrupt_request(&mut self, interrupt: InterruptType)
        ensures
            final(self).interrupt_flag == old(self).interrupt_flag & !interrupt_mask(interrupt),
            final(self).interrupt_enable == old(self).interrupt_enable,
    {
        self.interrupt_flag = self.interrupt_flag & !interrupt.mask();
    }

    /// Read IF or IE; only the five interrupt bits are visible.
    pub fn read(&self, address: u16) -> (data: u8)
        requires
            address == INTERRUPT_FLAG_ADDRESS || address == INTERRUPT_ENABLE_ADDRESS,
        ensures
            address == INTERRUPT_FLAG_ADDRESS ==> data == self.interrupt_flag % 32,
            address == INTERRUPT_ENABLE_ADDRESS ==> data == self.interrupt_enable % 32,
    {
        let flag = self.interrupt_flag;
        let enable = self.interrupt_enable;
        assert(flag & 0x1F == flag % 32) by {
            crate::bits::lemma_u8_bits(flag);
        }
        assert(enable & 0x1F == enable % 32) by {
            crate::bits::lemma_u8_bits(enable);
        }
        if address == INTERRUPT_FLAG_ADDRESS {
            flag & 0x1F
        } else {
            enable & 0x1F
        }
    }

    /// Write IF or IE; only the five interrupt bits are kept.
    pub fn write(&mut self, address: u16, data: u8)
        requires
            address == INTERRUPT_FLAG_ADDRESS || address == INTERRUPT_ENABLE_ADDRESS,
        ensures
            address == INTERRUPT_FLAG_ADDRESS ==> final(self).interrupt_flag == data % 32
                && final(self).interrupt_enable == old(self).interrupt_enable,
            address == INTERRUPT_ENABLE_ADDRESS ==> final(self).interrupt_enable == data % 32
                && final(self).interrupt_flag == old(self).interrupt_flag,
    {
        assert(data & 0x1F == data % 32) by {
            crate::bits::lemma_u8_bits(data);
        }
        if address == INTERRUPT_FLAG_ADDRESS {
            self.interrupt_flag = data & 0x1F;
        } else {
            self.interrupt_enable = data & 0x1F;
        }
    }
}

/// Requesting an interrupt and then resetting its request leaves the other
/// requests as they were and the reset one cleared.
pub proof fn lemma_request_then_reset(flag: u8, interrupt: InterruptType)
    ensures
        (flag | interrupt_mask(interrupt)) & !interrupt_mask(interrupt) == flag & !interrupt_mask(interrupt),
        (flag | interrupt_mask(interrupt)) & interrupt_mask(interrupt) != 0,
{
    let m = interrupt_mask(interrupt);
    crate::bits::lemma_u8_pair_bits(flag, m);
}

} // verus!
