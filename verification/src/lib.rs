//! Verified interpreter core for an 8-bit fantasy console.
//!
//! The core owns all machine state (memory, registers, stack, timers,
//! keypad, framebuffer) and implements the fetch-decode-execute cycle
//! for the baseline 35-opcode instruction set, with bit-exact arithmetic,
//! XOR sprite drawing with collision detection and screen wraparound,
//! and explicit, typed failures where a malformed program would otherwise
//! step out of bounds.

mod font;
pub mod emulator;
pub mod laws;

pub use font::fontset;
pub use font::spec_fontset;
pub use emulator::Emu;
pub use emulator::EmuError;
pub use emulator::EmuView;
