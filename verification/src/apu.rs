use vstd::prelude::*;

verus! {

pub const SOUND_START: u16 = 0xFF10;

pub const SOUND_END: u16 = 0xFF26;

pub const WAVE_START: u16 = 0xFF30;

pub const WAVE_END: u16 = 0xFF3F;

/// The audio unit; sound is not emulated, so its registers read as 0xFF and
/// ignore writes.
pub struct Apu {}

impl Apu {
    pub fn new() -> (apu: Self) {
        Apu {  }
    }

    /// The APU is not affected by CGB double speed mode
    pub fn tick(&mut self, _speed_multiplier: u64)
        ensures
            *final(self) == *old(self),
    {
    }

    pub fn read(&self, _address: u16) -> (data: u8)
        ensures
            data == 0xFF,
    {
        0xFF
    }

    pub fn write(&mut self, _address: u16, _data: u8)
        ensures
            *final(self) == *old(self),
    {
    }
}

} // verus!
