//! A verified interpreter core for a small 8-bit virtual machine: a 4 KiB
//! byte-addressable memory, sixteen 8-bit registers, a 16-entry call stack,
//! two countdown timers, a 64x32 monochrome display and a 16-key keypad.
//!
//! The machine state and the fetch-decode-execute cycle live here, specified
//! against a mathematical model of the state (`state::Chip8View`) and a pure
//! step function (`semantics::spec_step`). Rendering, input polling and ROM
//! file handling are left to the embedding program.

pub mod chip8;
pub mod decode;
pub mod laws;
pub mod rng;
pub mod semantics;
pub mod state;
pub mod step;

pub use chip8::Chip8;
pub use state::Chip8Error;
