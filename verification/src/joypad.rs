use vstd::prelude::*;

use crate::interrupts::{interrupt_mask, InterruptHandler, InterruptType};
use crate::utils::{Byte, Cycles, Word};

verus! {

pub const JOYP_ADDRESS: Word = 0xFF00;

/// 64Hz
pub const JOYPAD_POLL_CYCLES: Cycles = 65536;

/// The eight buttons of the Game Boy.
#[derive(Debug, Copy, Clone, PartialEq, Eq, Structural)]
pub enum JoypadKeys {
    Right,
    Left,
    Up,
    Down,
    A,
    B,
    Select,
    Start,
}

/// The numeric code of a key (Right = 0, ..., Start = 7), which is also the
/// mask that `keydown` and `keyup` apply to the key state.
pub open spec fn key_code(key: JoypadKeys) -> u8 {
    match key {
        JoypadKeys::Right => 0,
        JoypadKeys::Left => 1,
        JoypadKeys::Up => 2,
        JoypadKeys::Down => 3,
        JoypadKeys::A => 4,
        JoypadKeys::B => 5,
        JoypadKeys::Select => 6,
        JoypadKeys::Start => 7,
    }
}

impl JoypadKeys {
    pub fn code(&self) -> (code: u8)
        ensures
            code == key_code(*self),
    {
        match self {
            JoypadKeys::Right => 0,
            JoypadKeys::Left => 1,
            JoypadKeys::Up => 2,
            JoypadKeys::Down => 3,
            JoypadKeys::A => 4,
            JoypadKeys::B => 5,
            JoypadKeys::Select => 6,
            JoypadKeys::Start => 7,
        }
    }
}

/// The joypad register (JOYP) and the state of the keys.
pub struct Joypad {
    pub keys: Byte,
    pub joyp: Byte,
    pub cycles: Cycles,
}

/// The value JOYP takes when the joypad is polled: the selection bits of the
/// old value with the lower nibble filled from the selected key group.
pub open spec fn polled_joyp(joyp: u8, keys: u8) -> u8 {
    let current = joyp & 0xF0;
    if current & 0x30 == 0x10 {
        current | ((keys >> 4u8) & 0x0F)
    } else if current & 0x30 == 0x20 {
        current | (keys & 0x0F)
    } else {
        current | 0x0F
    }
}

/// Whether polling makes a key line go from high to low, which requests the
/// joypad interrupt.
pub open spec fn poll_requests_interrupt(joyp: u8, keys: u8) -> bool {
    (joyp & !polled_joyp(joyp, keys) & 0x0F) != 0
}

impl Joypad {
    /// At least one key group is selected and the poll counter is below the
    /// poll period.
    pub open spec fn wf(&self) -> bool {
        &&& self.joyp & 0x30 != 0
        &&& self.cycles < JOYPAD_POLL_CYCLES
    }

    pub fn new() -> (joypad: Self)
        ensures
            joypad.keys == 0xFF,
            joypad.joyp == 0xFF,
            joypad.cycles == 0,
            joypad.wf(),
    {
        let j = Joypad { keys: 0xFF, joyp: 0xFF, cycles: 0 };
        assert(0xFFu8 & 0x30 != 0) by (bit_vector);
        j
    }

    pub fn keydown(&mut self, key: JoypadKeys)
        ensures
            final(self).keys == old(self).keys & !key_code(key),
            final(self).joyp == old(self).joyp,
            final(self).cycles == old(self).cycles,
    {
        self.keys = self.keys & !key.code();
    }

    pub fn keyup(&mut self, key: JoypadKeys)
        ensures
            final(self).keys == old(self).keys | key_code(key),
            final(self).joyp == old(self).joyp,
            final(self).cycles == old(self).cycles,
    {
        self.keys = self.keys | key.code();
    }

    /// Advance the joypad by one m-cycle (4 t-cycles); every 65536 t-cycles
    /// the keys are polled.
    pub fn tick(&mut self, interrupts: &mut InterruptHandler)
        requires
            old(self).wf(),
        ensures
            final(self).wf(),
            final(self).keys == old(self).keys,
            old(self).cycles + 4 < JOYPAD_POLL_CYCLES ==> {
                &&& final(self).cycles == old(self).cycles + 4
                &&& final(self).joyp == old(self).joyp
                &&& *final(interrupts) == *old(interrupts)
            },
            old(self).cycles + 4 >= JOYPAD_POLL_CYCLES ==> {
                &&& final(self).cycles == (old(self).cycles + 4) % (JOYPAD_POLL_CYCLES as int)
                &&& final(self).joyp == polled_joyp(old(self).joyp, old(self).keys)
                &&& final(interrupts).interrupt_enable == old(interrupts).interrupt_enable
                &&& final(interrupts).interrupt_flag == if poll_requests_interrupt(
                    old(self).joyp,
                    old(self).keys,
                ) {
                    old(interrupts).interrupt_flag | interrupt_mask(InterruptType::Joypad)
                } else {
                    old(interrupts).interrupt_flag
                }
            },
    {
        self.cycles = self.cycles + 4;

        // The Joypad polls for input every 64Hz
        if self.cycles >= JOYPAD_POLL_CYCLES {
            self.cycles = self.cycles % JOYPAD_POLL_CYCLES;
            self.update(interrupts);
        }
    }

    /// Refresh the lower nibble of JOYP from the selected key group and
    /// request the joypad interrupt on a falling key line.
    pub fn update(&mut self, interrupts: &mut InterruptHandler)
        requires
            old(self).joyp & 0x30 != 0,
        ensures
            final(self).joyp == polled_joyp(old(self).joyp, old(self).keys),
            final(self).joyp & 0x30 == old(self).joyp & 0x30,
            final(self).keys == old(self).keys,
            final(self).cycles == old(self).cycles,
            final(interrupts).interrupt_enable == old(interrupts).interrupt_enable,
            final(interrupts).interrupt_flag == if poll_requests_interrupt(
                old(self).joyp,
                old(self).keys,
            ) {
                old(interrupts).interrupt_flag | interrupt_mask(InterruptType::Joypad)
            } else {
                old(interrupts).interrupt_flag
            },
    {
        let joyp = self.joyp;
        let keys = self.keys;
        let mut current = joyp & 0xF0;
        let select = current & 0x30;
        if select == 0x10 {
            current = current | ((keys >> 4u8) & 0x0F);
        } else if select == 0x20 {
            current = current | (keys & 0x0F);
        } else {
            current = current | 0x0F;
        }
        assert(current & 0x30 == joyp & 0x30) by (bit_vector)
            requires
                current == polled_joyp(joyp, keys),
        ;

        if (joyp & !current & 0x0F) != 0 {
            interrupts.request_interrupt(InterruptType::Joypad);
        }

        self.joyp = current;
    }

    pub fn read(&self, address: Word) -> (data: Byte)
        requires
            address == JOYP_ADDRESS,
        ensures
            data == self.joyp,
    {
        self.joyp
    }

    /// Only the two selection bits of JOYP are writable; the lower nibble is
    /// refreshed right away.
    pub fn write(&mut self, address: Word, data: Byte, interrupts: &mut InterruptHandler)
        requires
            address == JOYP_ADDRESS,
            data & 0x30 != 0,
        ensures
            final(self).joyp == polled_joyp(
                (old(self).joyp & 0xCF) | (data & 0x30),
                old(self).keys,
            ),
            final(self).keys == old(self).keys,
            final(self).cycles == old(self).cycles,
            final(interrupts).interrupt_enable == old(interrupts).interrupt_enable,
            final(interrupts).interrupt_flag == if poll_requests_interrupt(
                (old(self).joyp & 0xCF) | (data & 0x30),
                old(self).keys,
            ) {
                old(interrupts).interrupt_flag | interrupt_mask(InterruptType::Joypad)
            } else {
                old(interrupts).interrupt_flag
            },
            final(self).joyp & 0x30 == data & 0x30,
    {
        let old_joyp = self.joyp;
        let j = (old_joyp & 0xCF) | (data & 0x30);
        assert(j & 0x30 == data & 0x30) by (bit_vector)
            requires
                j == (old_joyp & 0xCF) | (data & 0x30),
        ;
        self.joyp = j;
        self.update(interrupts);
    }
}

} // verus!
