use vstd::prelude::*;

use crate::cpu::Registers;

verus! {

/// An opcode the CPU executed, with the two bytes that followed it.
#[derive(Debug, Copy, Clone, PartialEq, Eq, Structural)]
pub struct ExecutedOpcode {
    pub pc: u16,
    pub opcode: u8,
    pub arg1: u8,
    pub arg2: u8,
}

/// A snapshot of the CPU for debugging: its registers and its most recent
/// opcodes, oldest first.
pub struct CpuDebug {
    pub registers: Registers,
    pub opcodes: Vec<ExecutedOpcode>,
}

} // verus!
