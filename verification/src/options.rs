use vstd::prelude::*;

verus! {

/// Command-line arguments and settings for the emulator
pub struct Options {
    pub rom_file: String,
    pub scale_factor: u32,
}

} // verus!
