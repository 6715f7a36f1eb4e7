//! A CHIP-8 virtual machine whose instruction semantics are stated as a
//! mathematical model and proved, instruction by instruction, of the code that
//! runs them.

pub mod chip8;
pub mod dump;
pub mod error;
pub mod input;
pub mod instruction;
pub mod laws;
pub mod layout;
mod random;
pub mod sprite;
pub mod state;

pub use chip8::Chip8;
pub use dump::{dump_memory_dec, dump_memory_hex};
pub use error::{Chip8Error, StepOutcome};
pub use input::Input;
pub use instruction::{decode, Instruction};
pub use layout::{
    DISPLAY_HEIGHT, DISPLAY_SIZE, DISPLAY_WIDTH, FLAG_REGISTER, FONT_BASE, GLYPH_SIZE, KEY_COUNT,
    MEMORY_SIZE, PROGRAM_START, REGISTER_COUNT, STACK_DEPTH,
};
pub use state::MachineState;
