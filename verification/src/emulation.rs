//! What the emulation thread does with each command the user interface sends.
use vstd::prelude::*;

use crate::cpu::history_entry;
use crate::debug::CpuDebug;
use crate::gameboy::{frame_outcome, Gameboy};
use crate::joypad::{key_code, JoypadKeys};
use crate::EmulationFault;

verus! {

/// How far the emulator should run.
#[derive(Debug, Clone, Copy, PartialEq, Eq, Structural)]
pub enum RunUntil {
    SingleOpcode,
    FrameEnd,
}

/// The debug panels of the user interface.
#[derive(Debug, Clone, Copy, PartialEq, Eq, Structural)]
pub enum Panel {
    Cpu,
    Ppu,
    Memory,
    Nametables,
    Cartridge,
}

/// A command from the user interface to the emulation thread.
#[derive(Debug, Clone, Copy, PartialEq, Eq, Structural)]
pub enum EmulatorCommand {
    RunUntil(RunUntil),
    // Debug
    QueryDebug(Panel),
    // Joypad events
    KeyPressed(JoypadKeys),
    KeyReleased(JoypadKeys),
    Exit,
}

/// What the emulation thread has to do after a command: tell the user
/// interface that a frame is ready, send it debug information, nothing, or
/// save and stop.
pub enum CommandOutcome {
    CompletedFrame,
    Debug(CpuDebug),
    Nothing,
    Exit,
}

/// Carry out `command` on the emulated machine. Running one opcode at a time
/// is not supported.
pub fn handle_command(gameboy: &mut Gameboy, command: EmulatorCommand) -> (outcome: Result<
    CommandOutcome,
    EmulationFault,
>)
    requires
        old(gameboy).wf(),
        command != EmulatorCommand::RunUntil(RunUntil::SingleOpcode),
    ensures
        outcome is Ok ==> final(gameboy).wf(),
        match command {
            EmulatorCommand::RunUntil(_) => match outcome {
                Ok(o) => o is CompletedFrame && frame_outcome(old(gameboy), final(gameboy), Ok(())),
                Err(fault) => frame_outcome(old(gameboy), final(gameboy), Err(fault)),
            },
            EmulatorCommand::QueryDebug(panel) => match outcome {
                Ok(CommandOutcome::Debug(d)) => {
                    &&& panel == Panel::Cpu
                    &&& d.registers == old(gameboy).cpu.regs
                    &&& d.opcodes@.len() == old(gameboy).cpu.state().history.len()
                    &&& forall|i: int|
                        0 <= i < d.opcodes@.len() ==> history_entry(#[trigger] d.opcodes@[i])
                            == old(gameboy).cpu.state().history[i]
                    &&& *final(gameboy) == *old(gameboy)
                },
                Ok(CommandOutcome::Nothing) => panel != Panel::Cpu && *final(gameboy) == *old(
                    gameboy,
                ),
                _ => false,
            },
            EmulatorCommand::KeyPressed(key) => outcome matches Ok(CommandOutcome::Nothing)
                && final(gameboy).mmu@.joypad.keys == old(gameboy).mmu@.joypad.keys & !key_code(
                key,
            ),
            EmulatorCommand::KeyReleased(key) => outcome matches Ok(CommandOutcome::Nothing)
                && final(gameboy).mmu@.joypad.keys == old(gameboy).mmu@.joypad.keys | key_code(
                key,
            ),
            EmulatorCommand::Exit => outcome matches Ok(CommandOutcome::Exit) && *final(gameboy)
                == *old(gameboy),
        },
{
    match command {
        EmulatorCommand::RunUntil(_) => {
            match gameboy.run_one_frame() {
                Ok(()) => Ok(CommandOutcome::CompletedFrame),
                Err(fault) => Err(fault),
            }
        },
        EmulatorCommand::QueryDebug(panel) => {
            if panel == Panel::Cpu {
                Ok(CommandOutcome::Debug(gameboy.load_cpu_debug()))
            } else {
                Ok(CommandOutcome::Nothing)
            }
        },
        EmulatorCommand::KeyPressed(key) => {
            gameboy.keydown(key);
            Ok(CommandOutcome::Nothing)
        },
        EmulatorCommand::KeyReleased(key) => {
            gameboy.keyup(key);
            Ok(CommandOutcome::Nothing)
        },
        EmulatorCommand::Exit => Ok(CommandOutcome::Exit),
    }
}

} // verus!
