# gibi

A Game Boy Color emulator core written in Verus. The functions under `src/`
are proved by Verus against their contracts, with four exceptions whose
contracts are trusted: the wrappers around `std::str::from_utf8` and around
`CircularBuffer::new`, `push_back` and `to_vec` of the `circular-buffer` crate.

Two places follow the original's documented intent rather than its code:
echo RAM (0xE000-0xFDFF) mirrors work RAM 0x2000 below it, as on the Game
Boy's memory map, and a sprite near the right edge of the screen is clipped
at screen column 159 ("partially hidden on the right").

## Layout

- `src/` — the verified library.
  - `cpu.rs`, `instructions.rs`: the SM83 CPU. Registers, flags and the ALU are
    modelled by spec functions; each instruction handler is proved to perform
    the bus accesses and register changes of its semantics, and `Cpu::execute`
    is proved against `execute_spec` (interrupt servicing, EI delay, HALT).
  - `memory.rs`: the `SystemBus` trait through which the CPU reaches memory,
    with a ghost record of every bus access.
  - `mmu.rs`: the memory map (WRAM banks, HRAM, echo RAM mirroring WRAM,
    boot ROM overlay, KEY1 speed switch, OAM DMA, general-purpose VRAM DMA;
    a write to HDMA5 that asks for H-blank DMA is ignored).
  - `cartridge.rs`: header parsing and the MBC1 / MBC5 bank controllers.
  - `ppu.rs`, `palettes.rs`, `textures.rs`: LCD modes, STAT interrupts, and the
    background, window and sprite renderers, each proved equal to a spec of
    the scanline it draws.
  - `timer.rs`, `joypad.rs`, `interrupts.rs`, `serial.rs`, `apu.rs`: the
    remaining I/O registers.
  - `gameboy.rs`: the machine as a whole; `run_one_frame` is proved to be a
    chain of `execute` steps, each begun before the frame's end, that stops at
    the first step reaching it (the memory map's cycle counter counts exactly
    the m-cycles of the recorded bus events).
  - `emulation.rs`: the decisions of the emulation thread (commands in,
    actions out).
  - `disassembly.rs`, `text.rs`: the opcode disassembler.
  - `utils.rs`, `bits.rs`: word/byte helpers and bit-vector lemmas.
- `tests/` — tests run against the compiled library.
- `app/` — the desktop front end (window, file dialogs, threads, file I/O),
  which drives the library and is not verified. It is written against
  `eframe` and `rfd`, which `Cargo.toml` leaves out (their dependency trees
  are too large to include), so the front end does not build as it stands.
