# FerrisBoy

A Game Boy (DMG) and Game Boy Color (CGB) emulator whose core is verified
with Verus.

## Layout

- `src/` — the emulator core. Each component (CPU, bus, PPU, timer,
  cartridge controllers, DMA units, joypad, serial port, APU registers) is a
  plain state value with a view into a mathematical model, and every
  operation states in its `ensures` exactly how it changes that model.
  - `cpu.rs` — the LR35902: all opcodes, interrupts, HALT, EI delay, STOP.
  - `bus.rs` — the memory map, WRAM banking, HDMA/GDMA, speed switch.
  - `ppu.rs` — the dot-driven mode machine and the scanline renderer.
  - `cartridge.rs` — header decoding and MBC1/2/3/5.
  - `timer.rs`, `dma.rs`, `joypad.rs`, `serial.rs`, `audio.rs`, `model.rs`.
  - `gameboy.rs` — the machine: power-on, steps and frames.
  - `laws.rs` — properties that relate several operations: memory reads
    back what was written, PUSH/POP, MBC bank switching, VBK/SVBK, OAM and
    VRAM DMA, scanline timing, timer behaviour, joypad, serial.
  - `cpu_laws.rs` — CPU properties across instructions: EI delay, which
    opcodes touch IME, HALT and the HALT bug, interrupt dispatch, CALL/RET,
    STOP as a speed switch.
- `tests/` — executable tests of the core.
- `app/` — the program: command line, ROM files, SDL2 window, keyboard,
  logging, and printing what the game sends over the serial port.
