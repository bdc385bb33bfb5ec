//! A CHIP-8 interpreter core: memory, registers, timers, keypad and a
//! monochrome frame buffer, with every instruction specified against an
//! abstract machine state.

use vstd::prelude::*;

pub mod draw;
pub mod emu;
pub mod error;
pub mod host;
pub mod instruction_laws;
pub mod laws;
pub mod model;
pub mod ops;
pub mod rng;

pub use emu::Emu;
pub use error::{EmuError, EmuResult};

verus! {

/// Number of bytes in the built-in hexadecimal font.
pub const FONTSET_SIZE: usize = 80;

/// Sprites for the hexadecimal digits 0 to F, five bytes each, stored at the
/// bottom of memory.
pub const FONTSET: [u8; FONTSET_SIZE] = [
    0xF0, 0x90, 0x90, 0x90, 0xF0,
    0x20, 0x60, 0x20, 0x20, 0x70,
    0xF0, 0x10, 0xF0, 0x80, 0xF0,
    0xF0, 0x10, 0xF0, 0x10, 0xF0,
    0x90, 0x90, 0xF0, 0x10, 0x10,
    0xF0, 0x80, 0xF0, 0x10, 0xF0,
    0xF0, 0x80, 0xF0, 0x90, 0xF0,
    0xF0, 0x10, 0x20, 0x40, 0x40,
    0xF0, 0x90, 0xF0, 0x90, 0xF0,
    0xF0, 0x90, 0xF0, 0x10, 0xF0,
    0xF0, 0x90, 0xF0, 0x90, 0x90,
    0xE0, 0x90, 0xE0, 0x90, 0xE0,
    0xF0, 0x80, 0x80, 0x80, 0xF0,
    0xE0, 0x90, 0x90, 0x90, 0xE0,
    0xF0, 0x80, 0xF0, 0x80, 0xF0,
    0xF0, 0x80, 0xF0, 0x80, 0x80,
];

/// Width of the display in pixels.
pub const SCREEN_WIDTH: usize = 64;

/// Height of the display in pixels.
pub const SCREEN_HEIGHT: usize = 32;

/// Number of pixels of the display (`SCREEN_WIDTH * SCREEN_HEIGHT`).
pub const SCREEN_SIZE: usize = 2048;

/// Bytes of addressable memory.
pub const RAM_SIZE: usize = 4096;

/// Number of general purpose registers `V0` to `VF`.
pub const NUM_REGS: usize = 16;

/// Depth of the return-address stack.
pub const STACK_SIZE: usize = 16;

/// Number of keys of the hexadecimal keypad.
pub const NUM_KEYS: usize = 16;

/// Address at which programs are loaded and execution starts.
pub const START_ADDR: u16 = 0x200;

} // verus!
