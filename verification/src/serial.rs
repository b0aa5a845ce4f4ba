use vstd::prelude::*;

verus! {

pub const SERIAL_START: u16 = 0xFF01;

pub const SERIAL_END: u16 = 0xFF02;

/// The serial port; no link partner is emulated, so its registers read as
/// 0xFF and ignore writes.
pub struct Serial {}

impl Serial {
    pub fn new() -> (serial: Self) {
        Self {  }
    }

    pub fn read(&self, _address: u16) -> (data: u8)
        ensures
            data == 0xFF,
    {
        0xFF
    }

    pub fn write(&mut self, _address: u16, _data: u8)
        ensures
            *final(self) == *old(self),
    {
    }
}

} // verus!
