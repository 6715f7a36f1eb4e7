//! The mathematical model of the machine: its state as plain sequences and
//! numbers, and what every operation makes of a state.
//!
//! Nothing here runs. The executable machine has this state as its view, and
//! the contract of each of its operations names the function of this module
//! that it computes.

use crate::error::{Chip8Error, StepOutcome};
use crate::instruction::{decode_spec, Instruction};
use crate::layout::{
    DISPLAY_HEIGHT, DISPLAY_SIZE, DISPLAY_WIDTH, FLAG_REGISTER, FONT_BASE, GLYPH_SIZE, KEY_COUNT,
    MEMORY_SIZE, PROGRAM_START, REGISTER_COUNT, STACK_DEPTH,
};
use crate::sprite::{draw_collides, draw_display, sprite_rows};
use vstd::prelude::*;

verus! {

/// A state paired with what the operation that led to it reports.
pub type Transition = (MachineState, Result<StepOutcome, Chip8Error>);

/// The whole state of a machine.
#[verifier::ext_equal]
pub struct MachineState {
    /// The 4096 bytes of memory.
    pub memory: Seq<u8>,
    /// The general registers `V0..VF`.
    pub registers: Seq<u8>,
    /// The program counter.
    pub pc: u16,
    /// The index register `I`.
    pub index: u16,
    /// The delay timer.
    pub delay_timer: u8,
    /// The sound timer.
    pub sound_timer: u8,
    /// The return addresses of the calls in progress, innermost last.
    pub stack: Seq<u16>,
    /// The pixels, row by row, each 0 or 1.
    pub display: Seq<u8>,
    /// For each key, whether it is held down.
    pub keys_held: Seq<bool>,
    /// For each key, whether it was released since the host last looked.
    pub keys_released: Seq<bool>,
    /// Whether the alternative behaviour of the shift, jump-with-offset and
    /// register store and load instructions is selected.
    pub quirks: bool,
}

/// Whether the `length` bytes from `address` on lie inside memory. The start
/// itself must be an address, also where `length` is zero.
pub open spec fn block_in_range(address: int, length: int) -> bool {
    0 <= address < MEMORY_SIZE && 0 <= length && address + length <= MEMORY_SIZE
}

/// Whether `key` is the lowest-numbered key with a release signal.
pub open spec fn is_first_released(keys_released: Seq<bool>, key: int) -> bool {
    &&& 0 <= key < KEY_COUNT
    &&& keys_released[key]
    &&& forall|lower: int| 0 <= lower < key ==> !keys_released[lower]
}

/// The lowest-numbered key with a release signal, if any key has one.
pub open spec fn first_released(keys_released: Seq<bool>) -> Option<u8> {
    if exists|key: int| is_first_released(keys_released, key) {
        Some((choose|key: int| is_first_released(keys_released, key)) as u8)
    } else {
        None
    }
}

/// A timer after one tick: one less, and zero stays zero.
pub open spec fn ticked(timer: u8) -> u8 {
    if timer > 0 {
        (timer - 1) as u8
    } else {
        0
    }
}

impl MachineState {
    /// The shape that every state of a machine has.
    pub open spec fn wf(self) -> bool {
        &&& self.memory.len() == MEMORY_SIZE
        &&& self.registers.len() == REGISTER_COUNT
        &&& self.stack.len() <= STACK_DEPTH
        &&& self.display.len() == DISPLAY_SIZE
        &&& forall|pixel: int| 0 <= pixel < DISPLAY_SIZE ==> self.display[pixel] <= 1
        &&& self.keys_held.len() == KEY_COUNT
        &&& self.keys_released.len() == KEY_COUNT
    }

    /// The state of a machine that was just built or reset: everything zero,
    /// no key pressed, the stack empty, the program counter at the start of
    /// program memory.
    pub open spec fn initial(quirks: bool) -> MachineState {
        MachineState {
            memory: Seq::new(MEMORY_SIZE as nat, |i: int| 0u8),
            registers: Seq::new(REGISTER_COUNT as nat, |i: int| 0u8),
            pc: PROGRAM_START,
            index: 0,
            delay_timer: 0,
            sound_timer: 0,
            stack: Seq::empty(),
            display: Seq::new(DISPLAY_SIZE as nat, |i: int| 0u8),
            keys_held: Seq::new(KEY_COUNT as nat, |i: int| false),
            keys_released: Seq::new(KEY_COUNT as nat, |i: int| false),
            quirks,
        }
    }

    // ----- memory -----

    /// The `length` bytes of memory from `address` on.
    pub open spec fn read_block(self, address: int, length: int) -> Seq<u8> {
        self.memory.subrange(address, address + length)
    }

    /// The state with `data` copied into memory from `address` on.
    pub open spec fn write_block(self, address: int, data: Seq<u8>) -> MachineState {
        MachineState {
            memory: Seq::new(
                self.memory.len(),
                |i: int|
                    if address <= i < address + data.len() {
                        data[i - address]
                    } else {
                        self.memory[i]
                    },
            ),
            ..self
        }
    }

    /// What a read of `length` bytes from `address` on returns: the bytes, or
    /// the range error where they do not all lie inside memory.
    pub open spec fn checked_read(self, address: usize, length: usize) -> Result<
        Seq<u8>,
        Chip8Error,
    > {
        if block_in_range(address as int, length as int) {
            Ok(self.read_block(address as int, length as int))
        } else {
            Err(Chip8Error::OutOfRange { address, length })
        }
    }

    /// What a write of `data` from `address` on makes of the state and what
    /// it returns: where the bytes do not all fit inside memory, the range
    /// error, and the state as it was.
    pub open spec fn checked_write(self, address: usize, data: Seq<u8>) -> (
        MachineState,
        Result<(), Chip8Error>,
    ) {
        if block_in_range(address as int, data.len() as int) {
            (self.write_block(address as int, data), Ok(()))
        } else {
            (self, Err(Chip8Error::OutOfRange { address, length: data.len() as usize }))
        }
    }

    /// What a write of `data` that is stated to be `size` bytes long makes of
    /// the state and what it returns: a length that differs from `size` is
    /// reported before anything else, and nothing is written.
    pub open spec fn checked_write_sized(self, address: usize, size: usize, data: Seq<u8>) -> (
        MachineState,
        Result<(), Chip8Error>,
    ) {
        if data.len() != size {
            (
                self,
                Err(Chip8Error::LengthMismatch { expected: size, actual: data.len() as usize }),
            )
        } else {
            self.checked_write(address, data)
        }
    }

    /// The state with its whole memory replaced by `image`.
    pub open spec fn with_memory(self, image: Seq<u8>) -> MachineState {
        MachineState { memory: image, ..self }
    }

    // ----- host signals -----

    /// The state after the host set the held signal of `key`.
    pub open spec fn with_key_held(self, key: int, held: bool) -> MachineState {
        MachineState { keys_held: self.keys_held.update(key, held), ..self }
    }

    /// The state after the host set the release signal of `key`.
    pub open spec fn with_key_released(self, key: int, released: bool) -> MachineState {
        MachineState { keys_released: self.keys_released.update(key, released), ..self }
    }

    /// The state after one tick of the timer clock.
    pub open spec fn tick_timers(self) -> MachineState {
        MachineState {
            delay_timer: ticked(self.delay_timer),
            sound_timer: ticked(self.sound_timer),
            ..self
        }
    }

    // ----- building blocks of the instructions -----

    /// The value of register `Vx`.
    pub open spec fn reg(self, x: u8) -> u8 {
        self.registers[x as int]
    }

    /// The state with `Vx` set to `value`.
    pub open spec fn with_reg(self, x: u8, value: u8) -> MachineState {
        MachineState { registers: self.registers.update(x as int, value), ..self }
    }

    /// The state with the flag register `VF` set to `value`.
    pub open spec fn with_flag(self, value: u8) -> MachineState {
        MachineState { registers: self.registers.update(FLAG_REGISTER as int, value), ..self }
    }

    /// The state with the program counter at `pc`.
    pub open spec fn with_pc(self, pc: u16) -> MachineState {
        MachineState { pc, ..self }
    }

    /// The state with the index register at `index`.
    pub open spec fn with_index(self, index: u16) -> MachineState {
        MachineState { index, ..self }
    }

    /// The state with the next instruction skipped if `condition` holds.
    pub open spec fn skip_if(self, condition: bool) -> MachineState {
        if condition {
            self.with_pc((self.pc + 2) as u16)
        } else {
            self
        }
    }

    /// Whether the key numbered `key` is held. There are sixteen keys: a
    /// number from 16 on names none, and no key is held under it.
    pub open spec fn key_held(self, key: u8) -> bool {
        key < KEY_COUNT && self.keys_held[key as int]
    }

    /// The register whose value a shift instruction shifts.
    pub open spec fn shift_source(self, x: u8, y: u8) -> u8 {
        if self.quirks {
            self.reg(x)
        } else {
            self.reg(y)
        }
    }

    /// The index register after a store or load of `V0..=Vx`.
    pub open spec fn index_after_transfer(self, x: u8) -> u16 {
        if self.quirks {
            self.index
        } else {
            (self.index + x + 1) as u16
        }
    }

    // ----- fetch -----

    /// The two bytes at the program counter as one big-endian word, or `None`
    /// where they do not both lie inside memory.
    pub open spec fn fetch(self) -> Option<u16> {
        if self.pc + 2 <= MEMORY_SIZE {
            Some((self.memory[self.pc as int] * 256 + self.memory[self.pc + 1]) as u16)
        } else {
            None
        }
    }

    // ----- the instructions that can fail or stall -----

    /// `00EE`.
    pub open spec fn subroutine_return(self) -> Transition {
        if self.stack.len() == 0 {
            (self, Err(Chip8Error::StackUnderflow))
        } else {
            (
                MachineState { pc: self.stack.last(), stack: self.stack.drop_last(), ..self },
                Ok(StepOutcome::Executed),
            )
        }
    }

    /// `2NNN`.
    pub open spec fn subroutine_call(self, addr: u16) -> Transition {
        if self.stack.len() >= STACK_DEPTH {
            (self, Err(Chip8Error::StackOverflow))
        } else {
            (
                MachineState { pc: addr, stack: self.stack.push(self.pc), ..self },
                Ok(StepOutcome::Executed),
            )
        }
    }

    /// The display column of a sprite's left edge when it is drawn at `Vx`.
    pub open spec fn sprite_left(self, x: u8) -> int {
        self.reg(x) as int % (DISPLAY_WIDTH as int)
    }

    /// The display row of a sprite's top edge when it is drawn at `Vy`.
    pub open spec fn sprite_top(self, y: u8) -> int {
        self.reg(y) as int % (DISPLAY_HEIGHT as int)
    }

    /// `DXYN`. The flag is set to 1 if a lit pixel went dark and to 0 if none
    /// did. Only the rows that reach the display are fetched and checked
    /// against the end of memory.
    pub open spec fn draw(self, x: u8, y: u8, n: u8) -> Transition {
        let px = self.sprite_left(x);
        let py = self.sprite_top(y);
        let rows = sprite_rows(py, n as int);
        if rows > 0 && self.index + rows > MEMORY_SIZE {
            (
                self,
                Err(Chip8Error::OutOfRange { address: self.index as usize, length: rows as usize }),
            )
        } else {
            let collides = draw_collides(
                self.display,
                self.memory,
                self.index as int,
                px,
                py,
                n as int,
            );
            (
                MachineState {
                    display: draw_display(
                        self.display,
                        self.memory,
                        self.index as int,
                        px,
                        py,
                        n as int,
                    ),
                    registers: self.registers.update(
                        FLAG_REGISTER as int,
                        if collides {
                            1u8
                        } else {
                            0u8
                        },
                    ),
                    ..self
                },
                Ok(StepOutcome::Executed),
            )
        }
    }

    /// `FX0A`, on the state whose program counter is already past the
    /// instruction. With no key released the program counter goes back onto
    /// the instruction, so that the state is the one before the fetch.
    pub open spec fn wait_for_key(self, x: u8) -> Transition {
        match first_released(self.keys_released) {
            Some(key) => (self.with_reg(x, key), Ok(StepOutcome::Executed)),
            None => (self.with_pc((self.pc - 2) as u16), Ok(StepOutcome::AwaitingKey)),
        }
    }

    /// `FX33`.
    pub open spec fn store_decimal(self, x: u8) -> Transition {
        if self.index + 3 > MEMORY_SIZE {
            (self, Err(Chip8Error::OutOfRange { address: self.index as usize, length: 3 }))
        } else {
            let value = self.reg(x);
            (
                self.write_block(
                    self.index as int,
                    seq![value / 100, (value % 100) / 10, value % 10],
                ),
                Ok(StepOutcome::Executed),
            )
        }
    }

    /// `FX55`.
    pub open spec fn store_registers(self, x: u8) -> Transition {
        if self.index + x + 1 > MEMORY_SIZE {
            (
                self,
                Err(
                    Chip8Error::OutOfRange {
                        address: self.index as usize,
                        length: (x + 1) as usize,
                    },
                ),
            )
        } else {
            (
                MachineState { index: self.index_after_transfer(x), ..self }.write_block(
                    self.index as int,
                    self.registers.subrange(0, x + 1),
                ),
                Ok(StepOutcome::Executed),
            )
        }
    }

    /// `FX65`.
    pub open spec fn load_registers(self, x: u8) -> Transition {
        if self.index + x + 1 > MEMORY_SIZE {
            (
                self,
                Err(
                    Chip8Error::OutOfRange {
                        address: self.index as usize,
                        length: (x + 1) as usize,
                    },
                ),
            )
        } else {
            (
                MachineState {
                    registers: Seq::new(
                        self.registers.len(),
                        |r: int|
                            if r <= x {
                                self.memory[self.index + r]
                            } else {
                                self.registers[r]
                            },
                    ),
                    index: self.index_after_transfer(x),
                    ..self
                },
                Ok(StepOutcome::Executed),
            )
        }
    }

    // ----- the instructions that always complete -----

    /// `00E0`.
    pub open spec fn clear_display(self) -> MachineState {
        MachineState { display: Seq::new(DISPLAY_SIZE as nat, |i: int| 0u8), ..self }
    }

    /// `8XY4`. The sum goes to `Vx` first, the carry to `VF` last.
    pub open spec fn add_registers(self, x: u8, y: u8) -> MachineState {
        let sum = self.reg(x) + self.reg(y);
        self.with_reg(x, (sum % 256) as u8).with_flag(
            if sum > 255 {
                1
            } else {
                0
            },
        )
    }

    /// `8XY5`: `Vx - Vy`. The flag is 1 exactly if nothing was borrowed.
    pub open spec fn subtract_registers(self, x: u8, y: u8) -> MachineState {
        let difference = self.reg(x) - self.reg(y);
        self.with_reg(x, (difference % 256) as u8).with_flag(
            if self.reg(x) >= self.reg(y) {
                1
            } else {
                0
            },
        )
    }

    /// `8XY7`: `Vy - Vx`. The flag is 1 exactly if nothing was borrowed.
    pub open spec fn subtract_from(self, x: u8, y: u8) -> MachineState {
        let difference = self.reg(y) - self.reg(x);
        self.with_reg(x, (difference % 256) as u8).with_flag(
            if self.reg(y) >= self.reg(x) {
                1
            } else {
                0
            },
        )
    }

    /// `8XY6`. `Vx` gets the source halved, `VF` its lowest bit.
    pub open spec fn shift_right(self, x: u8, y: u8) -> MachineState {
        let source = self.shift_source(x, y);
        self.with_reg(x, source / 2).with_flag(source % 2)
    }

    /// `8XYE`. `Vx` gets the source doubled modulo 256, `VF` its highest bit.
    pub open spec fn shift_left(self, x: u8, y: u8) -> MachineState {
        let source = self.shift_source(x, y);
        self.with_reg(x, ((source * 2) % 256) as u8).with_flag(source / 128)
    }

    /// `BNNN`.
    pub open spec fn jump_with_offset(self, x: u8, addr: u16) -> MachineState {
        let offset = if self.quirks {
            self.reg(x)
        } else {
            self.reg(0)
        };
        self.with_pc((addr + offset) as u16)
    }

    /// `FX1E`. The index register wraps at 16 bits. The flag is set to 1 when
    /// the sum leaves the 12-bit address space that the index was in, and is
    /// left alone otherwise.
    pub open spec fn add_to_index(self, x: u8) -> MachineState {
        let sum = self.index + self.reg(x);
        let flagged = if self.index <= 0xFFF && sum >= 0x1000 {
            self.with_flag(1)
        } else {
            self
        };
        flagged.with_index((sum % 0x10000) as u16)
    }

    /// The state after `instruction` ran on a state whose program counter is
    /// already past it, and what the cycle reports. An instruction that
    /// reports an error leaves the state as it found it.
    pub open spec fn execute(self, instruction: Instruction, random_byte: u8) -> Transition {
        match instruction {
            Instruction::ClearScreen => (self.clear_display(), Ok(StepOutcome::Executed)),
            Instruction::Return => self.subroutine_return(),
            Instruction::Jump { addr } => (self.with_pc(addr), Ok(StepOutcome::Executed)),
            Instruction::Call { addr } => self.subroutine_call(addr),
            Instruction::SkipIfEqual { x, nn } => (
                self.skip_if(self.reg(x) == nn),
                Ok(StepOutcome::Executed),
            ),
            Instruction::SkipIfNotEqual { x, nn } => (
                self.skip_if(self.reg(x) != nn),
                Ok(StepOutcome::Executed),
            ),
            Instruction::SkipIfRegistersEqual { x, y } => (
                self.skip_if(self.reg(x) == self.reg(y)),
                Ok(StepOutcome::Executed),
            ),
            Instruction::LoadImmediate { x, nn } => (
                self.with_reg(x, nn),
                Ok(StepOutcome::Executed),
            ),
            Instruction::AddImmediate { x, nn } => (
                self.with_reg(x, ((self.reg(x) + nn) % 256) as u8),
                Ok(StepOutcome::Executed),
            ),
            Instruction::Copy { x, y } => (
                self.with_reg(x, self.reg(y)),
                Ok(StepOutcome::Executed),
            ),
            Instruction::BitOr { x, y } => (
                self.with_reg(x, self.reg(x) | self.reg(y)),
                Ok(StepOutcome::Executed),
            ),
            Instruction::BitAnd { x, y } => (
                self.with_reg(x, self.reg(x) & self.reg(y)),
                Ok(StepOutcome::Executed),
            ),
            Instruction::BitXor { x, y } => (
                self.with_reg(x, self.reg(x) ^ self.reg(y)),
                Ok(StepOutcome::Executed),
            ),
            Instruction::AddRegister { x, y } => (
                self.add_registers(x, y),
                Ok(StepOutcome::Executed),
            ),
            Instruction::SubtractRegister { x, y } => (
                self.subtract_registers(x, y),
                Ok(StepOutcome::Executed),
            ),
            Instruction::ShiftRight { x, y } => (
                self.shift_right(x, y),
                Ok(StepOutcome::Executed),
            ),
            Instruction::SubtractFrom { x, y } => (
                self.subtract_from(x, y),
                Ok(StepOutcome::Executed),
            ),
            Instruction::ShiftLeft { x, y } => (
                self.shift_left(x, y),
                Ok(StepOutcome::Executed),
            ),
            Instruction::SkipIfRegistersDiffer { x, y } => (
                self.skip_if(self.reg(x) != self.reg(y)),
                Ok(StepOutcome::Executed),
            ),
            Instruction::LoadIndex { addr } => (
                self.with_index(addr),
                Ok(StepOutcome::Executed),
            ),
            Instruction::JumpWithOffset { x, addr } => (
                self.jump_with_offset(x, addr),
                Ok(StepOutcome::Executed),
            ),
            Instruction::Random { x, nn } => (
                self.with_reg(x, nn & random_byte),
                Ok(StepOutcome::Executed),
            ),
            Instruction::Draw { x, y, n } => self.draw(x, y, n),
            Instruction::SkipIfKeyHeld { x } => (
                self.skip_if(self.key_held(self.reg(x))),
                Ok(StepOutcome::Executed),
            ),
            Instruction::SkipIfKeyNotHeld { x } => (
                self.skip_if(!self.key_held(self.reg(x))),
                Ok(StepOutcome::Executed),
            ),
            Instruction::ReadDelayTimer { x } => (
                self.with_reg(x, self.delay_timer),
                Ok(StepOutcome::Executed),
            ),
            Instruction::WaitForKey { x } => self.wait_for_key(x),
            Instruction::SetDelayTimer { x } => (
                MachineState { delay_timer: self.reg(x), ..self },
                Ok(StepOutcome::Executed),
            ),
            Instruction::SetSoundTimer { x } => (
                MachineState { sound_timer: self.reg(x), ..self },
                Ok(StepOutcome::Executed),
            ),
            Instruction::AddToIndex { x } => (self.add_to_index(x), Ok(StepOutcome::Executed)),
            Instruction::FontGlyph { x } => (
                self.with_index((FONT_BASE + self.reg(x) * GLYPH_SIZE) as u16),
                Ok(StepOutcome::Executed),
            ),
            Instruction::StoreDecimal { x } => self.store_decimal(x),
            Instruction::StoreRegisters { x } => self.store_registers(x),
            Instruction::LoadRegisters { x } => self.load_registers(x),
        }
    }

    /// One fetch-decode-execute cycle.
    ///
    /// A fetch that would read past the end of memory reports the range and
    /// changes nothing. After a fetch the program counter is two further. A
    /// word that is no instruction is reported with the program counter past
    /// it, and so is an instruction that fails: in both cases nothing else has
    /// changed, and the next cycle goes on behind the offending word.
    pub open spec fn step(self, random_byte: u8) -> Transition {
        match self.fetch() {
            None => (self, Err(Chip8Error::OutOfRange { address: self.pc as usize, length: 2 })),
            Some(opcode) => {
                let fetched = self.with_pc((self.pc + 2) as u16);
                match decode_spec(opcode) {
                    None => (fetched, Err(Chip8Error::InvalidOpcode { opcode })),
                    Some(instruction) => fetched.execute(instruction, random_byte),
                }
            },
        }
    }

    /// The instruction that the next cycle runs, if the word at the program
    /// counter can be fetched and is one.
    pub open spec fn next_instruction(self) -> Option<Instruction> {
        match self.fetch() {
            Some(opcode) => decode_spec(opcode),
            None => None,
        }
    }

    /// Whether the next cycle consumes the random byte it is given.
    pub open spec fn next_is_random(self) -> bool {
        self.next_instruction() matches Some(Instruction::Random { .. })
    }
}

} // verus!
