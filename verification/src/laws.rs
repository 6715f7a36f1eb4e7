//! Laws of the machine: what holds of every state, every program and every
//! sprite, proved of the model that the executable machine is held to.

use crate::error::{Chip8Error, StepOutcome};
use crate::instruction::{
    decode_spec, lemma_opcode_fields, opcode_of, opcode_with_byte, Instruction,
};
use crate::layout::{
    DISPLAY_HEIGHT, DISPLAY_SIZE, DISPLAY_WIDTH, FLAG_REGISTER, KEY_COUNT, MEMORY_SIZE,
    REGISTER_COUNT, STACK_DEPTH,
};
use crate::sprite::{draw_collides, draw_display, flipped, sprite_bit, sprite_lights};
use crate::state::{block_in_range, first_released, is_first_released, MachineState};
use vstd::prelude::*;

verus! {

// ----- memory -----

/// What was loaded is what is read back: a write of `program` at `offset`
/// that fits succeeds, a read of as many bytes at `offset` then returns
/// `program`, byte for byte, and every byte outside the block is as it was. In
/// particular a program loaded at `0x200` is read back from `0x200`.
pub proof fn lemma_load_then_read(s: MachineState, offset: usize, program: Seq<u8>)
    requires
        s.wf(),
        block_in_range(offset as int, program.len() as int),
    ensures
        s.checked_write(offset, program).1 == Ok::<(), Chip8Error>(()),
        s.checked_write(offset, program).0.wf(),
        s.checked_write(offset, program).0.checked_read(offset, program.len() as usize) == Ok::<
            Seq<u8>,
            Chip8Error,
        >(program),
        forall|address: int|
            0 <= address < MEMORY_SIZE && !(offset <= address < offset + program.len())
                ==> s.checked_write(offset, program).0.memory[address] == s.memory[address],
{
    let loaded = s.write_block(offset as int, program);
    assert(loaded.read_block(offset as int, program.len() as int) =~= program);
}

/// A write that does not fit changes nothing, and neither does one whose
/// stated size is not the length of its data.
pub proof fn lemma_refused_write_changes_nothing(
    s: MachineState,
    address: usize,
    size: usize,
    data: Seq<u8>,
)
    ensures
        s.checked_write(address, data).1 is Err ==> s.checked_write(address, data).0 == s,
        s.checked_write(address, data).1 is Err <==> !block_in_range(
            address as int,
            data.len() as int,
        ),
        s.checked_write_sized(address, size, data).1 is Err ==> s.checked_write_sized(
            address,
            size,
            data,
        ).0 == s,
        data.len() != size ==> s.checked_write_sized(address, size, data).1 is Err,
{
}

// ----- the cycle as a whole -----

/// A cycle takes machine states to machine states.
pub proof fn lemma_step_preserves_wf(s: MachineState, random_byte: u8)
    requires
        s.wf(),
    ensures
        s.step(random_byte).0.wf(),
{
    if let Some(opcode) = s.fetch() {
        let fetched = s.with_pc((s.pc + 2) as u16);
        if let Some(instruction) = decode_spec(opcode) {
            lemma_execute_preserves_wf(fetched, instruction, random_byte);
        }
    }
}

/// An instruction takes machine states to machine states.
pub proof fn lemma_execute_preserves_wf(
    s: MachineState,
    instruction: Instruction,
    random_byte: u8,
)
    requires
        s.wf(),
        instruction.wf(),
    ensures
        s.execute(instruction, random_byte).0.wf(),
{
}

/// Only the random instruction looks at the random byte.
pub proof fn lemma_step_ignores_unused_byte(s: MachineState, byte_a: u8, byte_b: u8)
    requires
        !s.next_is_random(),
    ensures
        s.step(byte_a) == s.step(byte_b),
{
}

/// A cycle that reports an error has changed nothing, except that after a
/// successful fetch the program counter is past the fetched word.
pub proof fn lemma_error_changes_at_most_pc(s: MachineState, random_byte: u8)
    requires
        s.step(random_byte).1 is Err,
    ensures
        s.fetch() is None ==> s.step(random_byte).0 == s,
        s.fetch() is Some ==> s.step(random_byte).0 == s.with_pc((s.pc + 2) as u16),
{
}

/// Instructions read the keypad and never write it, and none changes the
/// quirk setting.
pub proof fn lemma_step_keeps_keypad(s: MachineState, random_byte: u8)
    ensures
        s.step(random_byte).0.keys_held == s.keys_held,
        s.step(random_byte).0.keys_released == s.keys_released,
        s.step(random_byte).0.quirks == s.quirks,
{
}

/// The display changes only under the clear and draw instructions.
pub proof fn lemma_display_changes_only_by_clear_and_draw(s: MachineState, random_byte: u8)
    requires
        s.step(random_byte).0.display != s.display,
    ensures
        s.next_instruction() matches Some(Instruction::ClearScreen)
            || s.next_instruction() matches Some(Instruction::Draw { .. }),
{
}

/// Timers run on the host's clock: an instruction changes a timer only by
/// setting it from a register.
pub proof fn lemma_timers_change_only_by_set(s: MachineState, random_byte: u8)
    ensures
        s.step(random_byte).0.delay_timer != s.delay_timer ==> (s.next_instruction() matches Some(
            Instruction::SetDelayTimer { .. },
        )),
        s.step(random_byte).0.sound_timer != s.sound_timer ==> (s.next_instruction() matches Some(
            Instruction::SetSoundTimer { .. },
        )),
{
}

/// Memory changes only under the two store instructions.
pub proof fn lemma_memory_changes_only_by_store(s: MachineState, random_byte: u8)
    requires
        s.step(random_byte).0.memory != s.memory,
    ensures
        s.next_instruction() matches Some(Instruction::StoreDecimal { .. })
            || s.next_instruction() matches Some(Instruction::StoreRegisters { .. }),
{
}

/// The call stack changes only under call and return.
pub proof fn lemma_stack_changes_only_by_call_and_return(s: MachineState, random_byte: u8)
    requires
        s.step(random_byte).0.stack != s.stack,
    ensures
        s.next_instruction() matches Some(Instruction::Call { .. })
            || s.next_instruction() matches Some(Instruction::Return),
{
}

/// The index register changes only under the instructions that set it, add
/// to it, point it at a glyph, or transfer registers.
pub proof fn lemma_index_changes_only_by_index_instructions(s: MachineState, random_byte: u8)
    requires
        s.step(random_byte).0.index != s.index,
    ensures
        s.next_instruction() matches Some(Instruction::LoadIndex { .. })
            || s.next_instruction() matches Some(Instruction::AddToIndex { .. })
            || s.next_instruction() matches Some(Instruction::FontGlyph { .. })
            || s.next_instruction() matches Some(Instruction::StoreRegisters { .. })
            || s.next_instruction() matches Some(Instruction::LoadRegisters { .. }),
{
}

/// Whether an instruction decides itself where execution goes on: jumps,
/// call and return, the skips, and the key wait.
pub open spec fn sets_program_counter(instruction: Instruction) -> bool {
    match instruction {
        Instruction::Return
        | Instruction::Jump { .. }
        | Instruction::Call { .. }
        | Instruction::SkipIfEqual { .. }
        | Instruction::SkipIfNotEqual { .. }
        | Instruction::SkipIfRegistersEqual { .. }
        | Instruction::SkipIfRegistersDiffer { .. }
        | Instruction::JumpWithOffset { .. }
        | Instruction::SkipIfKeyHeld { .. }
        | Instruction::SkipIfKeyNotHeld { .. }
        | Instruction::WaitForKey { .. } => true,
        _ => false,
    }
}

/// Unless the instruction decides otherwise, and also when it fails or is no
/// instruction at all, a cycle that could fetch moves the program counter on
/// by two.
pub proof fn lemma_pc_advances_by_two(s: MachineState, random_byte: u8)
    requires
        s.fetch() is Some,
        s.next_instruction() matches Some(instruction) ==> !sets_program_counter(instruction),
    ensures
        s.step(random_byte).0.pc == s.pc + 2,
{
}

// ----- single instructions -----

/// `6XNN` sets `Vx` to `nn` and changes no other register; the program
/// counter moves on by one instruction and nothing else changes.
pub proof fn lemma_load_immediate(s: MachineState, x: u8, nn: u8, random_byte: u8)
    requires
        s.wf(),
        x < REGISTER_COUNT,
        s.fetch() == Some(opcode_with_byte(0x6, x, nn)),
    ensures
        s.step(random_byte).1 == Ok::<StepOutcome, Chip8Error>(StepOutcome::Executed),
        s.step(random_byte).0.registers[x as int] == nn,
        forall|other: int|
            0 <= other < REGISTER_COUNT && other != x ==> s.step(random_byte).0.registers[other]
                == s.registers[other],
        s.step(random_byte).0 == (MachineState {
            registers: s.step(random_byte).0.registers,
            pc: (s.pc + 2) as u16,
            ..s
        }),
{
    lemma_opcode_fields(0x6, x, nn / 0x10, nn % 0x10);
    assert(s.next_instruction() == Some(Instruction::LoadImmediate { x, nn }));
}

/// `7XNN` adds modulo 256 and changes no other register: in particular the
/// flag register keeps its value unless it is the target itself.
pub proof fn lemma_add_immediate_wraps(s: MachineState, x: u8, nn: u8, random_byte: u8)
    requires
        s.wf(),
        x < REGISTER_COUNT,
        s.fetch() == Some(opcode_with_byte(0x7, x, nn)),
    ensures
        s.step(random_byte).1 == Ok::<StepOutcome, Chip8Error>(StepOutcome::Executed),
        s.step(random_byte).0.registers[x as int] == (s.registers[x as int] + nn) % 256,
        forall|other: int|
            0 <= other < REGISTER_COUNT && other != x ==> s.step(random_byte).0.registers[other]
                == s.registers[other],
        x != FLAG_REGISTER ==> s.step(random_byte).0.registers[FLAG_REGISTER as int]
            == s.registers[FLAG_REGISTER as int],
{
    lemma_opcode_fields(0x7, x, nn / 0x10, nn % 0x10);
    assert(s.next_instruction() == Some(Instruction::AddImmediate { x, nn }));
}

/// `8XY4`: the flag is 1 exactly if the sum of the two registers exceeds 255,
/// and `Vx`, unless it is the flag register, holds the sum modulo 256.
pub proof fn lemma_add_registers_carry(s: MachineState, x: u8, y: u8, random_byte: u8)
    requires
        s.wf(),
        x < REGISTER_COUNT,
        y < REGISTER_COUNT,
        s.fetch() == Some(opcode_of(0x8, x, y, 0x4)),
    ensures
        s.step(random_byte).1 == Ok::<StepOutcome, Chip8Error>(StepOutcome::Executed),
        s.step(random_byte).0.registers[FLAG_REGISTER as int] == (if s.registers[x as int]
            + s.registers[y as int] > 255 {
            1u8
        } else {
            0u8
        }),
        x != FLAG_REGISTER ==> s.step(random_byte).0.registers[x as int] == (s.registers[x as int]
            + s.registers[y as int]) % 256,
        forall|other: int|
            0 <= other < REGISTER_COUNT && other != x && other != FLAG_REGISTER ==> s.step(
                random_byte,
            ).0.registers[other] == s.registers[other],
{
    lemma_opcode_fields(0x8, x, y, 0x4);
    assert(s.next_instruction() == Some(Instruction::AddRegister { x, y }));
    let fetched = s.with_pc((s.pc + 2) as u16);
    assert(s.step(random_byte).0 == fetched.add_registers(x, y));
}

/// `8XY5`: the flag is 1 exactly if `Vx >= Vy` held before, and `Vx`, unless
/// it is the flag register, holds the difference modulo 256.
pub proof fn lemma_subtract_registers_borrow(s: MachineState, x: u8, y: u8, random_byte: u8)
    requires
        s.wf(),
        x < REGISTER_COUNT,
        y < REGISTER_COUNT,
        s.fetch() == Some(opcode_of(0x8, x, y, 0x5)),
    ensures
        s.step(random_byte).1 == Ok::<StepOutcome, Chip8Error>(StepOutcome::Executed),
        s.step(random_byte).0.registers[FLAG_REGISTER as int] == (if s.registers[x as int]
            >= s.registers[y as int] {
            1u8
        } else {
            0u8
        }),
        x != FLAG_REGISTER ==> s.step(random_byte).0.registers[x as int] == (s.registers[x as int]
            - s.registers[y as int]) % 256,
        forall|other: int|
            0 <= other < REGISTER_COUNT && other != x && other != FLAG_REGISTER ==> s.step(
                random_byte,
            ).0.registers[other] == s.registers[other],
{
    lemma_opcode_fields(0x8, x, y, 0x5);
    assert(s.next_instruction() == Some(Instruction::SubtractRegister { x, y }));
    let fetched = s.with_pc((s.pc + 2) as u16);
    assert(s.step(random_byte).0 == fetched.subtract_registers(x, y));
}

/// The program `00 E0` blanks the display whatever it showed: with these
/// two bytes at the program counter, one cycle leaves every pixel dark, and
/// changes nothing else but the program counter.
pub proof fn lemma_clear_screen(s: MachineState, random_byte: u8)
    requires
        s.wf(),
        s.pc + 2 <= MEMORY_SIZE,
        s.memory[s.pc as int] == 0x00,
        s.memory[s.pc + 1] == 0xE0,
    ensures
        s.step(random_byte).1 == Ok::<StepOutcome, Chip8Error>(StepOutcome::Executed),
        s.step(random_byte).0.display.len() == DISPLAY_SIZE,
        forall|pixel: int|
            0 <= pixel < DISPLAY_SIZE ==> s.step(random_byte).0.display[pixel] == 0,
        s.step(random_byte).0 == (MachineState {
            display: s.step(random_byte).0.display,
            pc: (s.pc + 2) as u16,
            ..s
        }),
{
    assert(decode_spec(0x00E0u16) == Some(Instruction::ClearScreen));
}

// ----- the key wait -----

/// With no key released, the key-wait instruction stalls: the cycle reports
/// that it waits and the state, program counter and `Vx` included, is the
/// state before the cycle.
pub proof fn lemma_wait_for_key_stalls(s: MachineState, x: u8, random_byte: u8)
    requires
        s.wf(),
        x < REGISTER_COUNT,
        s.fetch() == Some(opcode_with_byte(0xF, x, 0x0A)),
        forall|key: int| 0 <= key < KEY_COUNT ==> !s.keys_released[key],
    ensures
        s.step(random_byte) == (s, Ok::<StepOutcome, Chip8Error>(StepOutcome::AwaitingKey)),
{
    lemma_opcode_fields(0xF, x, 0x0, 0xA);
    assert(s.next_instruction() == Some(Instruction::WaitForKey { x }));
    assert(first_released(s.keys_released) is None);
    let fetched = s.with_pc((s.pc + 2) as u16);
    assert(fetched.with_pc((fetched.pc - 2) as u16) == s);
}

/// The state after cycles run one after the other, the `k`-th with byte
/// `random_bytes[k]`.
pub open spec fn run(s: MachineState, random_bytes: Seq<u8>) -> MachineState
    decreases random_bytes.len(),
{
    if random_bytes.len() == 0 {
        s
    } else {
        run(s, random_bytes.drop_last()).step(random_bytes.last()).0
    }
}

/// With no key released, any number of cycles leaves a machine that sits on
/// the key-wait instruction as it is.
pub proof fn lemma_wait_for_key_stalls_repeatedly(s: MachineState, x: u8, random_bytes: Seq<u8>)
    requires
        s.wf(),
        x < REGISTER_COUNT,
        s.fetch() == Some(opcode_with_byte(0xF, x, 0x0A)),
        forall|key: int| 0 <= key < KEY_COUNT ==> !s.keys_released[key],
    ensures
        run(s, random_bytes) == s,
    decreases random_bytes.len(),
{
    if random_bytes.len() > 0 {
        lemma_wait_for_key_stalls_repeatedly(s, x, random_bytes.drop_last());
        lemma_wait_for_key_stalls(s, x, random_bytes.last());
    }
}

/// Once a key is released, the key-wait instruction completes: `Vx` holds
/// the lowest released key, the program counter moves on by one instruction,
/// and nothing else changes.
pub proof fn lemma_wait_for_key_resumes(s: MachineState, x: u8, key: u8, random_byte: u8)
    requires
        s.wf(),
        x < REGISTER_COUNT,
        s.fetch() == Some(opcode_with_byte(0xF, x, 0x0A)),
        is_first_released(s.keys_released, key as int),
    ensures
        s.step(random_byte) == (
            s.with_reg(x, key).with_pc((s.pc + 2) as u16),
            Ok::<StepOutcome, Chip8Error>(StepOutcome::Executed),
        ),
{
    lemma_opcode_fields(0xF, x, 0x0, 0xA);
    assert(s.next_instruction() == Some(Instruction::WaitForKey { x }));
    let chosen = choose|k: int| is_first_released(s.keys_released, k);
    assert(is_first_released(s.keys_released, chosen));
    assert(chosen == key);
    assert(s.step(random_byte).0 =~= s.with_reg(x, key).with_pc((s.pc + 2) as u16));
}

// ----- call and return -----

/// A call followed by a return is a round trip: the return brings back the
/// state in which the call was made, program counter and stack included.
pub proof fn lemma_call_then_return(s: MachineState, addr: u16, byte_a: u8, byte_b: u8)
    requires
        s.wf(),
        s.stack.len() < STACK_DEPTH,
    ensures
        s.execute(Instruction::Call { addr }, byte_a).1 == Ok::<StepOutcome, Chip8Error>(
            StepOutcome::Executed,
        ),
        s.execute(Instruction::Call { addr }, byte_a).0.pc == addr,
        s.execute(Instruction::Call { addr }, byte_a).0.stack == s.stack.push(s.pc),
        s.execute(Instruction::Call { addr }, byte_a).0.execute(Instruction::Return, byte_b) == (
            s,
            Ok::<StepOutcome, Chip8Error>(StepOutcome::Executed),
        ),
{
    let called = s.execute(Instruction::Call { addr }, byte_a).0;
    assert(called.stack.drop_last() =~= s.stack);
    assert(called.execute(Instruction::Return, byte_b).0 =~= s);
}

/// A call with sixteen calls in progress is refused as a stack overflow, and
/// a return with none in progress as a stack underflow; neither changes the
/// state.
pub proof fn lemma_stack_limits(s: MachineState, addr: u16, random_byte: u8)
    requires
        s.wf(),
    ensures
        s.stack.len() == STACK_DEPTH ==> s.execute(Instruction::Call { addr }, random_byte) == (
            s,
            Err::<StepOutcome, Chip8Error>(Chip8Error::StackOverflow),
        ),
        s.stack.len() == 0 ==> s.execute(Instruction::Return, random_byte) == (
            s,
            Err::<StepOutcome, Chip8Error>(Chip8Error::StackUnderflow),
        ),
{
}

/// The state after the calls to `targets[0]`, `targets[1]`, ... were made one
/// inside the other, each as the first thing its caller does.
pub open spec fn after_calls(s: MachineState, targets: Seq<u16>) -> MachineState
    decreases targets.len(),
{
    if targets.len() == 0 {
        s
    } else {
        after_calls(s, targets.drop_last()).execute(
            Instruction::Call { addr: targets.last() },
            0,
        ).0
    }
}

/// The state after `count` returns were made one after the other.
pub open spec fn after_returns(s: MachineState, count: nat) -> MachineState
    decreases count,
{
    if count == 0 {
        s
    } else {
        after_returns(s.execute(Instruction::Return, 0).0, (count - 1) as nat)
    }
}

/// Nested calls that fit the stack all succeed and stack up the return
/// addresses in the order of the calls.
pub proof fn lemma_nested_calls(s: MachineState, targets: Seq<u16>)
    requires
        s.wf(),
        s.stack.len() + targets.len() <= STACK_DEPTH,
    ensures
        after_calls(s, targets).wf(),
        after_calls(s, targets).stack.len() == s.stack.len() + targets.len(),
        targets.len() > 0 ==> after_calls(s, targets).pc == targets.last(),
        targets.len() > 0 ==> after_calls(s, targets.drop_last()).execute(
            Instruction::Call { addr: targets.last() },
            0,
        ).1 == Ok::<StepOutcome, Chip8Error>(StepOutcome::Executed),
    decreases targets.len(),
{
    if targets.len() > 0 {
        lemma_nested_calls(s, targets.drop_last());
    }
}

/// Returns undo nested calls innermost first: after `unwound` returns from
/// the calls to `targets`, the machine is in the very state in which the
/// call that is now innermost had been made.
pub proof fn lemma_nested_calls_return_in_order(s: MachineState, targets: Seq<u16>, unwound: nat)
    requires
        s.wf(),
        s.stack.len() + targets.len() <= STACK_DEPTH,
        unwound <= targets.len(),
    ensures
        after_returns(after_calls(s, targets), unwound) == after_calls(
            s,
            targets.take(targets.len() - unwound),
        ),
    decreases targets.len(),
{
    if unwound == 0 {
        assert(targets.take(targets.len() as int) =~= targets);
    } else {
        let outer = targets.drop_last();
        let caller = after_calls(s, outer);
        lemma_nested_calls(s, outer);
        lemma_call_then_return(caller, targets.last(), 0, 0);
        assert(after_calls(s, targets).execute(Instruction::Return, 0).0 == caller);
        lemma_nested_calls_return_in_order(s, outer, (unwound - 1) as nat);
        assert(outer.take(outer.len() - (unwound - 1)) =~= targets.take(
            targets.len() - unwound,
        ));
    }
}

/// As many returns as there were nested calls bring back the state before
/// the first call.
pub proof fn lemma_nested_calls_round_trip(s: MachineState, targets: Seq<u16>)
    requires
        s.wf(),
        s.stack.len() + targets.len() <= STACK_DEPTH,
    ensures
        after_returns(after_calls(s, targets), targets.len()) == s,
{
    lemma_nested_calls_return_in_order(s, targets, targets.len());
    assert(targets.take(0) =~= Seq::<u16>::empty());
}

/// The seventeenth nested call is refused as a stack overflow.
pub proof fn lemma_call_beyond_depth_overflows(s: MachineState, targets: Seq<u16>, addr: u16)
    requires
        s.wf(),
        s.stack.len() + targets.len() == STACK_DEPTH,
    ensures
        after_calls(s, targets).execute(Instruction::Call { addr }, 0) == (
            after_calls(s, targets),
            Err::<StepOutcome, Chip8Error>(Chip8Error::StackOverflow),
        ),
{
    lemma_nested_calls(s, targets);
}

// ----- drawing -----

/// Drawing is clipped, not wrapped: a pixel left of the sprite's first
/// column, right of its eighth, above its first row or below its last keeps
/// its value. A sprite that hangs over the right or bottom edge therefore
/// does not come back on the opposite edge.
pub proof fn lemma_draw_is_clipped(
    display: Seq<u8>,
    memory: Seq<u8>,
    index: int,
    px: int,
    py: int,
    n: int,
    pixel: int,
)
    requires
        0 <= pixel < DISPLAY_SIZE,
        pixel % (DISPLAY_WIDTH as int) < px || pixel % (DISPLAY_WIDTH as int) >= px + 8 || pixel
            / (DISPLAY_WIDTH as int) < py || pixel / (DISPLAY_WIDTH as int) >= py + n,
    ensures
        !sprite_lights(memory, index, px, py, n, pixel),
        draw_display(display, memory, index, px, py, n)[pixel] == display[pixel],
{
}

/// Drawing flips exactly the pixels under the set bits of the part of the
/// sprite that lies on the display: the bit in column `col` of sprite row
/// `row` decides the pixel at `(px + col, py + row)`.
pub proof fn lemma_draw_flips_visible_bits(
    display: Seq<u8>,
    memory: Seq<u8>,
    index: int,
    px: int,
    py: int,
    n: int,
    row: int,
    col: int,
)
    requires
        0 <= px < DISPLAY_WIDTH,
        0 <= py < DISPLAY_HEIGHT,
        0 <= row < n,
        0 <= col < 8,
        px + col < DISPLAY_WIDTH,
        py + row < DISPLAY_HEIGHT,
    ensures
        sprite_lights(memory, index, px, py, n, (py + row) * DISPLAY_WIDTH + px + col)
            == sprite_bit(memory[index + row], col),
        draw_display(display, memory, index, px, py, n)[(py + row) * DISPLAY_WIDTH + px + col]
            == (if sprite_bit(memory[index + row], col) {
            flipped(display[(py + row) * DISPLAY_WIDTH + px + col])
        } else {
            display[(py + row) * DISPLAY_WIDTH + px + col]
        }),
{
    let pixel = (py + row) * DISPLAY_WIDTH + px + col;
    assert(pixel % 64 == px + col && pixel / 64 == py + row);
}

/// Drawing the same sprite twice at the same position gives back the display
/// that was there before.
pub proof fn lemma_draw_twice_restores(
    display: Seq<u8>,
    memory: Seq<u8>,
    index: int,
    px: int,
    py: int,
    n: int,
)
    requires
        display.len() == DISPLAY_SIZE,
        forall|pixel: int| 0 <= pixel < DISPLAY_SIZE ==> display[pixel] <= 1,
    ensures
        draw_display(draw_display(display, memory, index, px, py, n), memory, index, px, py, n)
            == display,
{
    let once = draw_display(display, memory, index, px, py, n);
    let twice = draw_display(once, memory, index, px, py, n);
    assert(twice =~= display);
}

/// On a blank display a sprite collides with nothing, and drawn again it
/// collides exactly if it has lit a pixel.
pub proof fn lemma_collision_on_blank_display(
    display: Seq<u8>,
    memory: Seq<u8>,
    index: int,
    px: int,
    py: int,
    n: int,
)
    requires
        display.len() == DISPLAY_SIZE,
        forall|pixel: int| 0 <= pixel < DISPLAY_SIZE ==> display[pixel] == 0,
    ensures
        !draw_collides(display, memory, index, px, py, n),
        draw_collides(draw_display(display, memory, index, px, py, n), memory, index, px, py, n)
            <==> exists|pixel: int| sprite_lights(memory, index, px, py, n, pixel),
{
    let once = draw_display(display, memory, index, px, py, n);
    if draw_collides(once, memory, index, px, py, n) {
        let w = choose|w: int| #[trigger]
            sprite_lights(memory, index, px, py, n, w) && once[w] == 1;
        assert(sprite_lights(memory, index, px, py, n, w));
    }
    if exists|pixel: int| sprite_lights(memory, index, px, py, n, pixel) {
        let w = choose|w: int| sprite_lights(memory, index, px, py, n, w);
        assert(sprite_lights(memory, index, px, py, n, w) && once[w] == 1);
    }
}

/// The draw instruction run twice on a blank display, with a sprite that
/// lights at least one pixel and coordinates that are not taken from the flag
/// register: the first draw reports no collision, the second reports one and
/// turns off every pixel that the first had turned on, so that the display is
/// blank again.
pub proof fn lemma_draw_twice_on_blank_display(s: MachineState, x: u8, y: u8, n: u8)
    requires
        s.wf(),
        x < FLAG_REGISTER,
        y < FLAG_REGISTER,
        n < 16,
        forall|pixel: int| 0 <= pixel < DISPLAY_SIZE ==> s.display[pixel] == 0,
        s.draw(x, y, n).1 is Ok,
        exists|pixel: int|
            sprite_lights(
                s.memory,
                s.index as int,
                s.sprite_left(x),
                s.sprite_top(y),
                n as int,
                pixel,
            ),
    ensures
        s.draw(x, y, n).0.registers[FLAG_REGISTER as int] == 0,
        s.draw(x, y, n).0.draw(x, y, n).1 == Ok::<StepOutcome, Chip8Error>(StepOutcome::Executed),
        s.draw(x, y, n).0.draw(x, y, n).0.registers[FLAG_REGISTER as int] == 1,
        s.draw(x, y, n).0.draw(x, y, n).0.display == s.display,
        forall|pixel: int|
            0 <= pixel < DISPLAY_SIZE && s.draw(x, y, n).0.display[pixel] == 1 ==> s.draw(
                x,
                y,
                n,
            ).0.draw(x, y, n).0.display[pixel] == 0,
{
    let px = s.sprite_left(x);
    let py = s.sprite_top(y);
    let once = s.draw(x, y, n).0;
    assert(once.reg(x) == s.reg(x) && once.reg(y) == s.reg(y));
    lemma_collision_on_blank_display(s.display, s.memory, s.index as int, px, py, n as int);
    lemma_draw_twice_restores(s.display, s.memory, s.index as int, px, py, n as int);
}

} // verus!
