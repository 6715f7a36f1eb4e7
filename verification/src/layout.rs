//! The dimensions of the machine and the addresses that are fixed by
//! convention.

use vstd::prelude::*;

verus! {

/// Size of the address space in bytes.
pub const MEMORY_SIZE: usize = 4096;

/// Number of general registers `V0..VF`.
pub const REGISTER_COUNT: usize = 16;

/// Number of return addresses that the call stack holds.
pub const STACK_DEPTH: usize = 16;

/// Number of keys on the keypad.
pub const KEY_COUNT: usize = 16;

/// Width of the display in pixels.
pub const DISPLAY_WIDTH: usize = 64;

/// Height of the display in pixels.
pub const DISPLAY_HEIGHT: usize = 32;

/// Number of pixels of the display, stored row by row.
pub const DISPLAY_SIZE: usize = 2048;

/// Where a program is conventionally loaded and where execution starts.
pub const PROGRAM_START: u16 = 0x200;

/// Where the font must be loaded for the glyph instruction to find it.
pub const FONT_BASE: u16 = 0;

/// Bytes per glyph of the font.
pub const GLYPH_SIZE: u16 = 5;

/// The register that receives carry, borrow and collision flags.
pub const FLAG_REGISTER: usize = 0xF;

} // verus!
