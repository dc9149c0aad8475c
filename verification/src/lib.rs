//! FerrisBoy: a Game Boy (DMG) and Game Boy Color (CGB) emulator core.
//!
//! Every component of the machine is a plain state value with a mathematical
//! model; each operation states, over that model, how the state changes.

pub mod model;
pub mod audio;
pub mod bits;
pub mod serial;
pub mod joypad;
pub mod timer;
pub mod dma;
pub mod cartridge;
pub mod ppu;
pub mod bus;
pub mod cpu;
pub mod gameboy;
pub mod laws;
pub mod cpu_laws;
pub mod cart_laws;
