//! The executable machine.

use crate::error::{Chip8Error, StepOutcome};
use crate::instruction::{decode, Instruction};
use crate::random::random_byte;
use crate::sprite::{
    collided_so_far, drawn_so_far, lemma_draw_next_bit, lemma_draw_next_row,
    lemma_draw_start_and_end,
};
use crate::layout::{
    DISPLAY_HEIGHT, DISPLAY_SIZE, DISPLAY_WIDTH, FLAG_REGISTER, FONT_BASE, GLYPH_SIZE, KEY_COUNT,
    MEMORY_SIZE, PROGRAM_START, REGISTER_COUNT, STACK_DEPTH,
};
use crate::state::{first_released, is_first_released, MachineState};
use vstd::prelude::*;

verus! {

/// A CHIP-8 virtual machine: memory, registers, call stack, display, keypad
/// signals and timers, owned and driven by one host.
pub struct Chip8 {
    memory: [u8; MEMORY_SIZE],
    registers: [u8; REGISTER_COUNT],
    pc: u16,
    i: u16,
    delay_timer: u8,
    sound_timer: u8,
    stack: [u16; STACK_DEPTH],
    sp: u8,
    display: [u8; DISPLAY_SIZE],
    keypad_held: [bool; KEY_COUNT],
    keypad_released: [bool; KEY_COUNT],
    quirks: bool,
}

impl View for Chip8 {
    type V = MachineState;

    /// The state of the machine. Of the stack only the return addresses of the
    /// calls in progress belong to it.
    closed spec fn view(&self) -> MachineState {
        MachineState {
            memory: self.memory@,
            registers: self.registers@,
            pc: self.pc,
            index: self.i,
            delay_timer: self.delay_timer,
            sound_timer: self.sound_timer,
            stack: self.stack@.take(self.sp as int),
            display: self.display@,
            keys_held: self.keypad_held@,
            keys_released: self.keypad_released@,
            quirks: self.quirks,
        }
    }
}

impl Chip8 {
    /// The stack pointer never leaves the stack, and a pixel is 0 or 1.
    #[verifier::type_invariant]
    spec fn inv(self) -> bool {
        &&& self.sp <= STACK_DEPTH
        &&& forall|pixel: int| 0 <= pixel < DISPLAY_SIZE ==> self.display@[pixel] <= 1
    }

    /// A machine with everything zeroed, the program counter at `0x200`, and
    /// the quirks switched off.
    pub fn new() -> (machine: Chip8)
        ensures
            machine@ == MachineState::initial(false),
            machine@.wf(),
    {
        Chip8::with_quirks(false)
    }

    /// A machine with everything zeroed and the program counter at `0x200`.
    /// With `quirks` set, the shift instructions shift `Vx` itself,
    /// jump-with-offset adds `Vx`, and register store and load leave the index
    /// register alone.
    pub fn with_quirks(quirks: bool) -> (machine: Chip8)
        ensures
            machine@ == MachineState::initial(quirks),
            machine@.wf(),
    {
        let machine = Chip8 {
            memory: [0; MEMORY_SIZE],
            registers: [0; REGISTER_COUNT],
            pc: PROGRAM_START,
            i: 0,
            delay_timer: 0,
            sound_timer: 0,
            stack: [0; STACK_DEPTH],
            sp: 0,
            display: [0; DISPLAY_SIZE],
            keypad_held: [false; KEY_COUNT],
            keypad_released: [false; KEY_COUNT],
            quirks,
        };
        assert(machine@ =~= MachineState::initial(quirks));
        machine
    }

    /// Puts the machine back into the state in which it was built. The quirk
    /// setting is configuration, not state, and stays.
    pub fn reset(&mut self)
        ensures
            final(self)@ == MachineState::initial(old(self)@.quirks),
            final(self)@.wf(),
    {
        proof {
            use_type_invariant(&*self);
        }
        self.sp = 0;
        self.display = [0; DISPLAY_SIZE];
        self.memory = [0; MEMORY_SIZE];
        self.registers = [0; REGISTER_COUNT];
        self.pc = PROGRAM_START;
        self.i = 0;
        self.delay_timer = 0;
        self.sound_timer = 0;
        self.stack = [0; STACK_DEPTH];
        self.keypad_held = [false; KEY_COUNT];
        self.keypad_released = [false; KEY_COUNT];
        assert(self@ =~= MachineState::initial(old(self)@.quirks));
    }

    /// The byte at `address`, or the range error where `address` lies outside
    /// memory.
    pub fn read_byte(&self, address: usize) -> (result: Result<u8, Chip8Error>)
        ensures
            match result {
                Ok(byte) => self@.checked_read(address, 1) == Ok::<Seq<u8>, Chip8Error>(
                    seq![byte],
                ),
                Err(error) => self@.checked_read(address, 1) == Err::<Seq<u8>, Chip8Error>(error),
            },
            self@.wf(),
    {
        proof {
            use_type_invariant(self);
        }
        if address < MEMORY_SIZE {
            assert(self@.read_block(address as int, 1) =~= seq![self.memory@[address as int]]);
            Ok(self.memory[address])
        } else {
            Err(Chip8Error::OutOfRange { address, length: 1 })
        }
    }

    /// Stores `value` at `address`. Where `address` lies outside memory, the
    /// range error is returned and nothing is written.
    pub fn write_byte(&mut self, address: usize, value: u8) -> (result: Result<(), Chip8Error>)
        ensures
            final(self)@ == old(self)@.checked_write(address, seq![value]).0,
            result == old(self)@.checked_write(address, seq![value]).1,
            final(self)@.wf(),
    {
        proof {
            use_type_invariant(&*self);
        }
        if address < MEMORY_SIZE {
            self.memory[address] = value;
            assert(self@ =~= old(self)@.write_block(address as int, seq![value]));
            Ok(())
        } else {
            Err(Chip8Error::OutOfRange { address, length: 1 })
        }
    }

    /// The `size` bytes of memory from `start` on. Where they do not lie
    /// inside memory, the range error is returned: a read is never shortened.
    pub fn read_memory(&self, start: usize, size: usize) -> (result: Result<&[u8], Chip8Error>)
        ensures
            match result {
                Ok(bytes) => self@.checked_read(start, size) == Ok::<Seq<u8>, Chip8Error>(bytes@),
                Err(error) => self@.checked_read(start, size) == Err::<Seq<u8>, Chip8Error>(error),
            },
            self@.wf(),
    {
        proof {
            use_type_invariant(self);
        }
        if start >= MEMORY_SIZE || size > MEMORY_SIZE - start {
            return Err(Chip8Error::OutOfRange { address: start, length: size });
        }
        Ok(vstd::slice::slice_subrange(self.memory.as_slice(), start, start + size))
    }

    /// Copies `data` into memory from `addr` on. Where the bytes do not all
    /// fit inside memory, the range error is returned and nothing is written.
    pub fn write_memory(&mut self, addr: usize, data: &[u8]) -> (result: Result<(), Chip8Error>)
        ensures
            final(self)@ == old(self)@.checked_write(addr, data@).0,
            result == old(self)@.checked_write(addr, data@).1,
            final(self)@.wf(),
    {
        proof {
            use_type_invariant(&*self);
        }
        let length = data.len();
        if addr >= MEMORY_SIZE || length > MEMORY_SIZE - addr {
            return Err(Chip8Error::OutOfRange { address: addr, length });
        }
        let mut copied: usize = 0;
        while copied < length
            invariant
                copied <= length,
                length == data@.len(),
                addr + length <= MEMORY_SIZE,
                self@ == old(self)@.write_block(addr as int, data@.take(copied as int)),
            decreases length - copied,
        {
            proof {
                use_type_invariant(&*self);
            }
            self.memory[addr + copied] = data[copied];
            copied += 1;
            assert(self@ =~= old(self)@.write_block(addr as int, data@.take(copied as int)));
        }
        assert(data@.take(length as int) =~= data@);
        Ok(())
    }

    /// Copies `data` into memory from `addr` on, for a caller that states the
    /// size of the block: `data` must be exactly `size` bytes long. A length
    /// that differs is reported first, then a block that does not fit; in both
    /// cases nothing is written.
    pub fn write_block(&mut self, addr: usize, size: usize, data: &[u8]) -> (result: Result<
        (),
        Chip8Error,
    >)
        ensures
            final(self)@ == old(self)@.checked_write_sized(addr, size, data@).0,
            result == old(self)@.checked_write_sized(addr, size, data@).1,
            final(self)@.wf(),
    {
        proof {
            use_type_invariant(&*self);
        }
        if data.len() != size {
            return Err(Chip8Error::LengthMismatch { expected: size, actual: data.len() });
        }
        self.write_memory(addr, data)
    }

    /// Replaces the whole memory by `image`.
    pub fn replace_memory(&mut self, image: &[u8; MEMORY_SIZE])
        ensures
            final(self)@ == old(self)@.with_memory(image@),
            final(self)@.wf(),
    {
        proof {
            use_type_invariant(&*self);
        }
        self.memory = *image;
    }

    /// Loads a program into memory from `0x200` on, where execution starts. A
    /// program that does not fit is refused with the range error and nothing
    /// is written.
    pub fn load_program(&mut self, program: &[u8]) -> (result: Result<(), Chip8Error>)
        ensures
            final(self)@ == old(self)@.checked_write(PROGRAM_START as usize, program@).0,
            result == old(self)@.checked_write(PROGRAM_START as usize, program@).1,
            final(self)@.wf(),
    {
        self.load_program_at(PROGRAM_START as usize, program)
    }

    /// Loads an image into memory from `offset` on: a program that is to run
    /// elsewhere than at `0x200`, or the font, which the glyph instruction
    /// expects at address 0. An image that does not fit is refused with the
    /// range error and nothing is written.
    pub fn load_program_at(&mut self, offset: usize, image: &[u8]) -> (result: Result<
        (),
        Chip8Error,
    >)
        ensures
            final(self)@ == old(self)@.checked_write(offset, image@).0,
            result == old(self)@.checked_write(offset, image@).1,
            final(self)@.wf(),
    {
        self.write_memory(offset, image)
    }

    /// Decrements both timers once. A timer at zero stays at zero.
    pub fn decrement_timers(&mut self)
        ensures
            final(self)@ == old(self)@.tick_timers(),
            old(self)@.delay_timer == 0 ==> final(self)@.delay_timer == 0,
            old(self)@.sound_timer == 0 ==> final(self)@.sound_timer == 0,
            final(self)@.wf(),
    {
        proof {
            use_type_invariant(&*self);
        }
        if self.delay_timer > 0 {
            self.delay_timer -= 1;
        }
        if self.sound_timer > 0 {
            self.sound_timer -= 1;
        }
    }

    /// The display, row by row, one byte per pixel, each 0 or 1.
    pub fn get_display(&self) -> (display: &[u8; DISPLAY_SIZE])
        ensures
            display@ == self@.display,
            forall|pixel: int| 0 <= pixel < DISPLAY_SIZE ==> display@[pixel] <= 1,
            self@.wf(),
    {
        proof {
            use_type_invariant(self);
        }
        &self.display
    }

    /// Sets whether `key` is held down.
    pub fn set_keypad_held(&mut self, key: usize, value: bool)
        requires
            key < KEY_COUNT,
        ensures
            final(self)@ == old(self)@.with_key_held(key as int, value),
            final(self)@.wf(),
    {
        proof {
            use_type_invariant(&*self);
        }
        self.keypad_held[key] = value;
    }

    /// Sets whether `key` was released since the host last looked.
    pub fn set_keypad_released(&mut self, key: usize, value: bool)
        requires
            key < KEY_COUNT,
        ensures
            final(self)@ == old(self)@.with_key_released(key as int, value),
            final(self)@.wf(),
    {
        proof {
            use_type_invariant(&*self);
        }
        self.keypad_released[key] = value;
    }

    /// Runs one fetch-decode-execute cycle, with `random_byte` as the byte
    /// that the random instruction `CXNN` draws. The byte comes from the
    /// host, so that a run can be repeated; no other instruction looks at it.
    ///
    /// Errors are reported, never acted on: a fetch outside memory changes
    /// nothing, and an unknown opcode or a failing instruction leaves the
    /// machine as it was but for the program counter, which is past the
    /// offending word.
    pub fn step(&mut self, random_byte: u8) -> (result: Result<StepOutcome, Chip8Error>)
        ensures
            final(self)@ == old(self)@.step(random_byte).0,
            result == old(self)@.step(random_byte).1,
            final(self)@.wf(),
    {
        proof {
            use_type_invariant(&*self);
        }
        let result = match self.fetch() {
            None => Err(Chip8Error::OutOfRange { address: self.pc as usize, length: 2 }),
            Some(opcode) => {
                self.pc += 2;
                match decode(opcode) {
                    None => Err(Chip8Error::InvalidOpcode { opcode }),
                    Some(instruction) => self.execute(instruction, random_byte),
                }
            },
        };
        proof {
            use_type_invariant(&*self);
        }
        result
    }

    /// Runs one fetch-decode-execute cycle. If the instruction to run is
    /// the random instruction, its byte is drawn from the operating system's
    /// randomness, and the cycle is [`Chip8::step`] with that byte; every
    /// other instruction runs as `step` runs it with any byte.
    pub fn fetch_decode_execute(&mut self) -> (result: Result<StepOutcome, Chip8Error>)
        ensures
            exists|random_byte: u8|
                (#[trigger] old(self)@.step(random_byte)).0 == final(self)@ && old(self)@.step(
                    random_byte,
                ).1 == result,
            !old(self)@.next_is_random() ==> old(self)@.step(0).0 == final(self)@ && old(self)@.step(
                0,
            ).1 == result,
            final(self)@.wf(),
    {
        let random_byte: u8 = if self.next_is_random() {
            random_byte()
        } else {
            0
        };
        self.step(random_byte)
    }

    /// The general registers `V0..VF`.
    pub fn registers(&self) -> (registers: &[u8; REGISTER_COUNT])
        ensures
            registers@ == self@.registers,
    {
        &self.registers
    }

    /// The program counter.
    pub fn pc(&self) -> (pc: u16)
        ensures
            pc == self@.pc,
    {
        self.pc
    }

    /// The index register `I`.
    pub fn index(&self) -> (index: u16)
        ensures
            index == self@.index,
    {
        self.i
    }

    /// The delay timer.
    pub fn delay_timer(&self) -> (timer: u8)
        ensures
            timer == self@.delay_timer,
    {
        self.delay_timer
    }

    /// The sound timer.
    pub fn sound_timer(&self) -> (timer: u8)
        ensures
            timer == self@.sound_timer,
    {
        self.sound_timer
    }

    /// Number of subroutine calls in progress.
    pub fn stack_depth(&self) -> (depth: usize)
        ensures
            depth == self@.stack.len(),
            depth <= STACK_DEPTH,
    {
        proof {
            use_type_invariant(self);
        }
        self.sp as usize
    }

    /// Whether the alternative behaviour of the quirk-dependent instructions
    /// is selected.
    pub fn quirks(&self) -> (quirks: bool)
        ensures
            quirks == self@.quirks,
    {
        self.quirks
    }
}

impl Chip8 {
    fn set_register(&mut self, x: u8, value: u8)
        requires
            x < REGISTER_COUNT,
        ensures
            final(self)@ == old(self)@.with_reg(x, value),
    {
        proof {
            use_type_invariant(&*self);
        }
        self.registers[x as usize] = value;
        assert(self@ =~= old(self)@.with_reg(x, value));
    }

    fn set_flag(&mut self, value: u8)
        ensures
            final(self)@ == old(self)@.with_flag(value),
    {
        proof {
            use_type_invariant(&*self);
        }
        self.registers[FLAG_REGISTER] = value;
        assert(self@ =~= old(self)@.with_flag(value));
    }

    fn skip_if(&mut self, condition: bool)
        requires
            old(self)@.pc <= MEMORY_SIZE,
        ensures
            final(self)@ == old(self)@.skip_if(condition),
    {
        proof {
            use_type_invariant(&*self);
        }
        if condition {
            self.pc += 2;
        }
    }

    fn clear_display(&mut self)
        ensures
            final(self)@ == old(self)@.clear_display(),
    {
        proof {
            use_type_invariant(&*self);
        }
        self.display = [0; DISPLAY_SIZE];
        assert(self@ =~= old(self)@.clear_display());
    }

    fn subroutine_return(&mut self) -> (result: Result<StepOutcome, Chip8Error>)
        ensures
            final(self)@ == old(self)@.subroutine_return().0,
            result == old(self)@.subroutine_return().1,
    {
        proof {
            use_type_invariant(&*self);
        }
        if self.sp == 0 {
            return Err(Chip8Error::StackUnderflow);
        }
        self.sp -= 1;
        self.pc = self.stack[self.sp as usize];
        assert(self@ =~= old(self)@.subroutine_return().0);
        Ok(StepOutcome::Executed)
    }

    fn subroutine_call(&mut self, addr: u16) -> (result: Result<StepOutcome, Chip8Error>)
        ensures
            final(self)@ == old(self)@.subroutine_call(addr).0,
            result == old(self)@.subroutine_call(addr).1,
    {
        proof {
            use_type_invariant(&*self);
        }
        if self.sp as usize >= STACK_DEPTH {
            return Err(Chip8Error::StackOverflow);
        }
        self.stack[self.sp as usize] = self.pc;
        self.sp += 1;
        self.pc = addr;
        assert(self@ =~= old(self)@.subroutine_call(addr).0);
        Ok(StepOutcome::Executed)
    }

    fn key_held(&self, key: u8) -> (held: bool)
        ensures
            held == self@.key_held(key),
    {
        (key as usize) < KEY_COUNT && self.keypad_held[key as usize]
    }

    fn add_registers(&mut self, x: u8, y: u8)
        requires
            x < REGISTER_COUNT,
            y < REGISTER_COUNT,
        ensures
            final(self)@ == old(self)@.add_registers(x, y),
    {
        let vx: u8 = self.registers[x as usize];
        let vy: u8 = self.registers[y as usize];
        let carry: u8 = if vx as u16 + vy as u16 > 255 {
            1
        } else {
            0
        };
        self.set_register(x, vx.wrapping_add(vy));
        self.set_flag(carry);
    }

    fn subtract_registers(&mut self, x: u8, y: u8)
        requires
            x < REGISTER_COUNT,
            y < REGISTER_COUNT,
        ensures
            final(self)@ == old(self)@.subtract_registers(x, y),
    {
        let vx: u8 = self.registers[x as usize];
        let vy: u8 = self.registers[y as usize];
        let no_borrow: u8 = if vx >= vy {
            1
        } else {
            0
        };
        self.set_register(x, vx.wrapping_sub(vy));
        self.set_flag(no_borrow);
    }

    fn subtract_from(&mut self, x: u8, y: u8)
        requires
            x < REGISTER_COUNT,
            y < REGISTER_COUNT,
        ensures
            final(self)@ == old(self)@.subtract_from(x, y),
    {
        let vx: u8 = self.registers[x as usize];
        let vy: u8 = self.registers[y as usize];
        let no_borrow: u8 = if vy >= vx {
            1
        } else {
            0
        };
        self.set_register(x, vy.wrapping_sub(vx));
        self.set_flag(no_borrow);
    }

    fn shift_source(&self, x: u8, y: u8) -> (source: u8)
        requires
            x < REGISTER_COUNT,
            y < REGISTER_COUNT,
        ensures
            source == self@.shift_source(x, y),
    {
        if self.quirks {
            self.registers[x as usize]
        } else {
            self.registers[y as usize]
        }
    }

    fn shift_right(&mut self, x: u8, y: u8)
        requires
            x < REGISTER_COUNT,
            y < REGISTER_COUNT,
        ensures
            final(self)@ == old(self)@.shift_right(x, y),
    {
        let source: u8 = self.shift_source(x, y);
        let low_bit: u8 = source & 0x1;
        let halved: u8 = source >> 1;
        assert(source & 0x1 == source % 2 && source >> 1 == source / 2) by (bit_vector);
        self.set_register(x, halved);
        self.set_flag(low_bit);
    }

    fn shift_left(&mut self, x: u8, y: u8)
        requires
            x < REGISTER_COUNT,
            y < REGISTER_COUNT,
        ensures
            final(self)@ == old(self)@.shift_left(x, y),
    {
        let source: u8 = self.shift_source(x, y);
        let high_bit: u8 = (source >> 7) & 0x1;
        let doubled: u8 = source << 1;
        assert((source >> 7) & 0x1 == source / 128 && source << 1 == (source * 2) % 256)
            by (bit_vector);
        self.set_register(x, doubled);
        self.set_flag(high_bit);
    }

    fn jump_with_offset(&mut self, x: u8, addr: u16)
        requires
            x < REGISTER_COUNT,
            addr < 0x1000,
        ensures
            final(self)@ == old(self)@.jump_with_offset(x, addr),
    {
        proof {
            use_type_invariant(&*self);
        }
        let offset: u8 = if self.quirks {
            self.registers[x as usize]
        } else {
            self.registers[0]
        };
        self.pc = addr + offset as u16;
    }

    fn add_to_index(&mut self, x: u8)
        requires
            x < REGISTER_COUNT,
        ensures
            final(self)@ == old(self)@.add_to_index(x),
    {
        proof {
            use_type_invariant(&*self);
        }
        let vx: u8 = self.registers[x as usize];
        let index: u16 = self.i;
        if index <= 0xfff && index as u32 + vx as u32 >= 0x1000 {
            self.registers[FLAG_REGISTER] = 1;
        }
        self.i = index.wrapping_add(vx as u16);
        assert(self@ =~= old(self)@.add_to_index(x));
    }

    fn font_glyph(&mut self, x: u8)
        requires
            x < REGISTER_COUNT,
        ensures
            final(self)@ == old(self)@.with_index(
                (FONT_BASE + old(self)@.reg(x) * GLYPH_SIZE) as u16,
            ),
    {
        proof {
            use_type_invariant(&*self);
        }
        self.i = FONT_BASE + (self.registers[x as usize] as u16) * GLYPH_SIZE;
    }

    fn wait_for_key(&mut self, x: u8) -> (result: Result<StepOutcome, Chip8Error>)
        requires
            x < REGISTER_COUNT,
            old(self)@.pc >= 2,
        ensures
            final(self)@ == old(self)@.wait_for_key(x).0,
            result == old(self)@.wait_for_key(x).1,
    {
        proof {
            use_type_invariant(&*self);
        }
        let mut found: Option<u8> = None;
        let mut key: u8 = 0;
        while key < 16
            invariant_except_break
                key <= 16,
                found is None,
                forall|lower: int| 0 <= lower < key ==> !self.keypad_released@[lower],
            ensures
                found matches Some(k) ==> is_first_released(self.keypad_released@, k as int),
                found is None ==> forall|lower: int|
                    0 <= lower < KEY_COUNT ==> !self.keypad_released@[lower],
            decreases 16 - key,
        {
            if self.keypad_released[key as usize] {
                found = Some(key);
                break ;
            }
            key += 1;
        }
        match found {
            Some(k) => {
                assert(first_released(self@.keys_released) == Some(k)) by {
                    let chosen = choose|c: int| is_first_released(self@.keys_released, c);
                    assert(is_first_released(self@.keys_released, chosen));
                    assert(chosen == k);
                }
                self.set_register(x, k);
                Ok(StepOutcome::Executed)
            },
            None => {
                assert(first_released(self@.keys_released) is None);
                self.pc -= 2;
                Ok(StepOutcome::AwaitingKey)
            },
        }
    }

    fn store_decimal(&mut self, x: u8) -> (result: Result<StepOutcome, Chip8Error>)
        requires
            x < REGISTER_COUNT,
        ensures
            final(self)@ == old(self)@.store_decimal(x).0,
            result == old(self)@.store_decimal(x).1,
    {
        proof {
            use_type_invariant(&*self);
        }
        let index: usize = self.i as usize;
        if index + 3 > MEMORY_SIZE {
            return Err(Chip8Error::OutOfRange { address: index, length: 3 });
        }
        let value: u8 = self.registers[x as usize];
        self.memory[index] = value / 100;
        self.memory[index + 1] = (value % 100) / 10;
        self.memory[index + 2] = value % 10;
        assert(self@ =~= old(self)@.store_decimal(x).0);
        Ok(StepOutcome::Executed)
    }

    fn store_registers(&mut self, x: u8) -> (result: Result<StepOutcome, Chip8Error>)
        requires
            x < REGISTER_COUNT,
        ensures
            final(self)@ == old(self)@.store_registers(x).0,
            result == old(self)@.store_registers(x).1,
    {
        proof {
            use_type_invariant(&*self);
        }
        let index: usize = self.i as usize;
        let count: usize = x as usize + 1;
        if index + count > MEMORY_SIZE {
            return Err(Chip8Error::OutOfRange { address: index, length: count });
        }
        let mut r: usize = 0;
        while r < count
            invariant
                r <= count,
                count == x + 1,
                x < REGISTER_COUNT,
                index == old(self)@.index,
                index + count <= MEMORY_SIZE,
                self@ == old(self)@.write_block(index as int, old(self)@.registers.take(r as int)),
            decreases count - r,
        {
            proof {
                use_type_invariant(&*self);
            }
            self.memory[index + r] = self.registers[r];
            r += 1;
            assert(self@ =~= old(self)@.write_block(
                index as int,
                old(self)@.registers.take(r as int),
            ));
        }
        proof {
            use_type_invariant(&*self);
        }
        if !self.quirks {
            self.i = (index + count) as u16;
        }
        assert(self@ =~= old(self)@.store_registers(x).0);
        Ok(StepOutcome::Executed)
    }

    fn load_registers(&mut self, x: u8) -> (result: Result<StepOutcome, Chip8Error>)
        requires
            x < REGISTER_COUNT,
        ensures
            final(self)@ == old(self)@.load_registers(x).0,
            result == old(self)@.load_registers(x).1,
    {
        proof {
            use_type_invariant(&*self);
        }
        let index: usize = self.i as usize;
        let count: usize = x as usize + 1;
        if index + count > MEMORY_SIZE {
            return Err(Chip8Error::OutOfRange { address: index, length: count });
        }
        let mut r: usize = 0;
        while r < count
            invariant
                r <= count,
                count == x + 1,
                x < REGISTER_COUNT,
                index == old(self)@.index,
                index + count <= MEMORY_SIZE,
                self@ == (MachineState {
                    registers: Seq::new(
                        REGISTER_COUNT as nat,
                        |k: int|
                            if k < r {
                                old(self)@.memory[index + k]
                            } else {
                                old(self)@.registers[k]
                            },
                    ),
                    ..old(self)@
                }),
            decreases count - r,
        {
            proof {
                use_type_invariant(&*self);
            }
            self.registers[r] = self.memory[index + r];
            r += 1;
            assert(self@ =~= (MachineState {
                registers: Seq::new(
                    REGISTER_COUNT as nat,
                    |k: int|
                        if k < r {
                            old(self)@.memory[index + k]
                        } else {
                            old(self)@.registers[k]
                        },
                ),
                ..old(self)@
            }));
        }
        proof {
            use_type_invariant(&*self);
        }
        if !self.quirks {
            self.i = (index + count) as u16;
        }
        assert(self@ =~= old(self)@.load_registers(x).0);
        Ok(StepOutcome::Executed)
    }
}


impl Chip8 {
    fn draw(&mut self, x: u8, y: u8, n: u8) -> (result: Result<StepOutcome, Chip8Error>)
        requires
            x < REGISTER_COUNT,
            y < REGISTER_COUNT,
            n < 16,
        ensures
            final(self)@ == old(self)@.draw(x, y, n).0,
            result == old(self)@.draw(x, y, n).1,
    {
        proof {
            use_type_invariant(&*self);
        }
        let px: usize = self.registers[x as usize] as usize % DISPLAY_WIDTH;
        let py: usize = self.registers[y as usize] as usize % DISPLAY_HEIGHT;
        let rows: usize = if n as usize <= DISPLAY_HEIGHT - py {
            n as usize
        } else {
            DISPLAY_HEIGHT - py
        };
        let index: usize = self.i as usize;
        if rows > 0 && index + rows > MEMORY_SIZE {
            return Err(Chip8Error::OutOfRange { address: index, length: rows });
        }
        let ghost before = self@;
        proof {
            lemma_draw_start_and_end(
                before.display,
                before.memory,
                index as int,
                px as int,
                py as int,
                n as int,
            );
        }
        let mut collision: bool = false;
        let mut row: usize = 0;
        while row < rows
            invariant
                row <= rows <= DISPLAY_HEIGHT - py,
                px < DISPLAY_WIDTH,
                rows > 0 ==> index + rows <= MEMORY_SIZE,
                before.wf(),
                self@ == (MachineState { display: self@.display, ..before }),
                self@.display == drawn_so_far(
                    before.display,
                    before.memory,
                    index as int,
                    px as int,
                    py as int,
                    row as int,
                    0,
                ),
                collision == collided_so_far(
                    before.display,
                    before.memory,
                    index as int,
                    px as int,
                    py as int,
                    row as int,
                    0,
                ),
            decreases rows - row,
        {
            let bits: u8 = self.memory[index + row];
            let mut col: usize = 0;
            while col < 8 && px + col < DISPLAY_WIDTH
                invariant
                    col <= 8,
                    px + col <= DISPLAY_WIDTH,
                    row < rows <= DISPLAY_HEIGHT - py,
                    before.wf(),
                    bits == before.memory[index + row],
                    self@ == (MachineState { display: self@.display, ..before }),
                    self@.display == drawn_so_far(
                        before.display,
                        before.memory,
                        index as int,
                        px as int,
                        py as int,
                        row as int,
                        col as int,
                    ),
                    collision == collided_so_far(
                        before.display,
                        before.memory,
                        index as int,
                        px as int,
                        py as int,
                        row as int,
                        col as int,
                    ),
                decreases 8 - col,
            {
                proof {
                    use_type_invariant(&*self);
                    lemma_draw_next_bit(
                        before.display,
                        before.memory,
                        index as int,
                        px as int,
                        py as int,
                        row as int,
                        col as int,
                    );
                }
                if (bits >> (7 - col)) & 1 == 1 {
                    let pixel: usize = (py + row) * DISPLAY_WIDTH + px + col;
                    let value: u8 = self.display[pixel];
                    if value == 1 {
                        collision = true;
                    }
                    assert(value <= 1 ==> value ^ 1 == (if value == 1 {
                        0u8
                    } else {
                        1u8
                    })) by (bit_vector);
                    self.display[pixel] = value ^ 1;
                }
                col += 1;
            }
            proof {
                lemma_draw_next_row(
                    before.display,
                    before.memory,
                    index as int,
                    px as int,
                    py as int,
                    row as int,
                    col as int,
                );
            }
            row += 1;
        }
        proof {
            use_type_invariant(&*self);
        }
        self.registers[FLAG_REGISTER] = if collision {
            1
        } else {
            0
        };
        assert(self@ =~= before.draw(x, y, n).0);
        Ok(StepOutcome::Executed)
    }
}

impl Chip8 {
    fn fetch(&self) -> (opcode: Option<u16>)
        ensures
            opcode == self@.fetch(),
    {
        let pc: usize = self.pc as usize;
        if pc + 2 > MEMORY_SIZE {
            return None;
        }
        let high: u8 = self.memory[pc];
        let low: u8 = self.memory[pc + 1];
        assert(((high as u16) << 8) | (low as u16) == high * 256 + low) by (bit_vector);
        Some(((high as u16) << 8) | (low as u16))
    }

    fn execute(&mut self, instruction: Instruction, random_byte: u8) -> (result: Result<
        StepOutcome,
        Chip8Error,
    >)
        requires
            instruction.wf(),
            2 <= old(self)@.pc <= MEMORY_SIZE,
        ensures
            final(self)@ == old(self)@.execute(instruction, random_byte).0,
            result == old(self)@.execute(instruction, random_byte).1,
    {
        proof {
            use_type_invariant(&*self);
        }
        match instruction {
            Instruction::ClearScreen => {
                self.clear_display();
                Ok(StepOutcome::Executed)
            },
            Instruction::Return => self.subroutine_return(),
            Instruction::Jump { addr } => {
                self.pc = addr;
                Ok(StepOutcome::Executed)
            },
            Instruction::Call { addr } => self.subroutine_call(addr),
            Instruction::SkipIfEqual { x, nn } => {
                self.skip_if(self.registers[x as usize] == nn);
                Ok(StepOutcome::Executed)
            },
            Instruction::SkipIfNotEqual { x, nn } => {
                self.skip_if(self.registers[x as usize] != nn);
                Ok(StepOutcome::Executed)
            },
            Instruction::SkipIfRegistersEqual { x, y } => {
                self.skip_if(self.registers[x as usize] == self.registers[y as usize]);
                Ok(StepOutcome::Executed)
            },
            Instruction::LoadImmediate { x, nn } => {
                self.set_register(x, nn);
                Ok(StepOutcome::Executed)
            },
            Instruction::AddImmediate { x, nn } => {
                self.set_register(x, self.registers[x as usize].wrapping_add(nn));
                Ok(StepOutcome::Executed)
            },
            Instruction::Copy { x, y } => {
                self.set_register(x, self.registers[y as usize]);
                Ok(StepOutcome::Executed)
            },
            Instruction::BitOr { x, y } => {
                self.set_register(x, self.registers[x as usize] | self.registers[y as usize]);
                Ok(StepOutcome::Executed)
            },
            Instruction::BitAnd { x, y } => {
                self.set_register(x, self.registers[x as usize] & self.registers[y as usize]);
                Ok(StepOutcome::Executed)
            },
            Instruction::BitXor { x, y } => {
                self.set_register(x, self.registers[x as usize] ^ self.registers[y as usize]);
                Ok(StepOutcome::Executed)
            },
            Instruction::AddRegister { x, y } => {
                self.add_registers(x, y);
                Ok(StepOutcome::Executed)
            },
            Instruction::SubtractRegister { x, y } => {
                self.subtract_registers(x, y);
                Ok(StepOutcome::Executed)
            },
            Instruction::ShiftRight { x, y } => {
                self.shift_right(x, y);
                Ok(StepOutcome::Executed)
            },
            Instruction::SubtractFrom { x, y } => {
                self.subtract_from(x, y);
                Ok(StepOutcome::Executed)
            },
            Instruction::ShiftLeft { x, y } => {
                self.shift_left(x, y);
                Ok(StepOutcome::Executed)
            },
            Instruction::SkipIfRegistersDiffer { x, y } => {
                self.skip_if(self.registers[x as usize] != self.registers[y as usize]);
                Ok(StepOutcome::Executed)
            },
            Instruction::LoadIndex { addr } => {
                self.i = addr;
                Ok(StepOutcome::Executed)
            },
            Instruction::JumpWithOffset { x, addr } => {
                self.jump_with_offset(x, addr);
                Ok(StepOutcome::Executed)
            },
            Instruction::Random { x, nn } => {
                self.set_register(x, nn & random_byte);
                Ok(StepOutcome::Executed)
            },
            Instruction::Draw { x, y, n } => self.draw(x, y, n),
            Instruction::SkipIfKeyHeld { x } => {
                let held: bool = self.key_held(self.registers[x as usize]);
                self.skip_if(held);
                Ok(StepOutcome::Executed)
            },
            Instruction::SkipIfKeyNotHeld { x } => {
                let held: bool = self.key_held(self.registers[x as usize]);
                self.skip_if(!held);
                Ok(StepOutcome::Executed)
            },
            Instruction::ReadDelayTimer { x } => {
                self.set_register(x, self.delay_timer);
                Ok(StepOutcome::Executed)
            },
            Instruction::WaitForKey { x } => self.wait_for_key(x),
            Instruction::SetDelayTimer { x } => {
                self.delay_timer = self.registers[x as usize];
                Ok(StepOutcome::Executed)
            },
            Instruction::SetSoundTimer { x } => {
                self.sound_timer = self.registers[x as usize];
                Ok(StepOutcome::Executed)
            },
            Instruction::AddToIndex { x } => {
                self.add_to_index(x);
                Ok(StepOutcome::Executed)
            },
            Instruction::FontGlyph { x } => {
                self.font_glyph(x);
                Ok(StepOutcome::Executed)
            },
            Instruction::StoreDecimal { x } => self.store_decimal(x),
            Instruction::StoreRegisters { x } => self.store_registers(x),
            Instruction::LoadRegisters { x } => self.load_registers(x),
        }
    }

    /// Whether the next cycle runs the random instruction.
    fn next_is_random(&self) -> (random: bool)
        ensures
            random == self@.next_is_random(),
    {
        match self.fetch() {
            Some(opcode) => match decode(opcode) {
                Some(Instruction::Random { .. }) => true,
                _ => false,
            },
            None => false,
        }
    }
}


} // verus!
