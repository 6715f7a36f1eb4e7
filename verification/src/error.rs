//! What a memory access or a cycle of the machine can report to its host.

use vstd::prelude::*;

verus! {

/// A recoverable condition that an operation reports instead of carrying on.
#[derive(Clone, Copy, Debug, PartialEq, Eq, Structural)]
pub enum Chip8Error {
    /// A memory access of `length` bytes starting at `address` does not lie
    /// inside the 4096-byte address space.
    OutOfRange { address: usize, length: usize },
    /// A block write was asked for `expected` bytes and handed `actual`.
    LengthMismatch { expected: usize, actual: usize },
    /// A subroutine call found all sixteen stack slots taken.
    StackOverflow,
    /// A return found the call stack empty.
    StackUnderflow,
    /// The fetched word is not an instruction of the machine.
    InvalidOpcode { opcode: u16 },
}

/// How a cycle that raised no error ended.
#[derive(Clone, Copy, Debug, PartialEq, Eq, Structural)]
pub enum StepOutcome {
    /// The instruction ran to completion.
    Executed,
    /// The key-wait instruction saw no released key: the machine stays on it
    /// and runs it again on the next cycle.
    AwaitingKey,
}

} // verus!
