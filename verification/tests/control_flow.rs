use chip8_vm::{Chip8, Chip8Error, StepOutcome};

#[test]
fn jump_sets_the_program_counter() {
    let mut machine = Chip8::new();
    machine.load_program(&[0x1A, 0xBC]).unwrap();
    assert_eq!(machine.step(0), Ok(StepOutcome::Executed));
    assert_eq!(machine.pc(), 0xABC);
}

#[test]
fn jump_with_offset_adds_v0_without_quirks_and_vx_with() {
    // V0 = 0x10; V3 = 0x20; B3F0
    let program = [0x60, 0x10, 0x63, 0x20, 0xB3, 0xF0];
    let mut machine = Chip8::new();
    machine.load_program(&program).unwrap();
    for _ in 0..3 {
        machine.step(0).unwrap();
    }
    assert_eq!(machine.pc(), 0x3F0 + 0x10);
    let mut machine = Chip8::with_quirks(true);
    machine.load_program(&program).unwrap();
    for _ in 0..3 {
        machine.step(0).unwrap();
    }
    assert_eq!(machine.pc(), 0x3F0 + 0x20);
}

#[test]
fn jump_with_offset_may_leave_the_address_space() {
    let mut machine = Chip8::new();
    machine.load_program(&[0x60, 0xFF, 0xBF, 0xFF]).unwrap();
    machine.step(0).unwrap();
    assert_eq!(machine.step(0), Ok(StepOutcome::Executed));
    assert_eq!(machine.pc(), 0x10FE);
    assert_eq!(
        machine.step(0),
        Err(Chip8Error::OutOfRange { address: 0x10FE, length: 2 })
    );
    assert_eq!(machine.pc(), 0x10FE);
}

#[test]
fn call_and_return_round_trip() {
    let mut machine = Chip8::new();
    machine.load_program(&[0x23, 0x00, 0x6A, 0x01]).unwrap();
    machine.write_memory(0x300, &[0x00, 0xEE]).unwrap();
    assert_eq!(machine.step(0), Ok(StepOutcome::Executed));
    assert_eq!(machine.pc(), 0x300);
    assert_eq!(machine.stack_depth(), 1);
    assert_eq!(machine.step(0), Ok(StepOutcome::Executed));
    assert_eq!(machine.pc(), 0x202);
    assert_eq!(machine.stack_depth(), 0);
    assert_eq!(machine.step(0), Ok(StepOutcome::Executed));
    assert_eq!(machine.registers()[0xA], 1);
}

#[test]
fn sixteen_nested_calls_return_in_lifo_order_and_the_seventeenth_overflows() {
    let mut machine = Chip8::new();
    // Level k (0-based) lives at 0x200 + 0x10 * k and calls level k + 1;
    // behind each call stands a return.
    for level in 0..17usize {
        let here = 0x200 + 0x10 * level;
        let target = 0x200 + 0x10 * (level + 1);
        let code = [0x20 | (target >> 8) as u8, (target & 0xFF) as u8, 0x00, 0xEE];
        machine.write_memory(here, &code).unwrap();
    }
    for level in 0..16usize {
        assert_eq!(machine.pc() as usize, 0x200 + 0x10 * level);
        assert_eq!(machine.stack_depth(), level);
        assert_eq!(machine.step(0), Ok(StepOutcome::Executed));
    }
    assert_eq!(machine.stack_depth(), 16);
    assert_eq!(machine.pc(), 0x300);
    // The seventeenth call before any return is refused.
    assert_eq!(machine.step(0), Err(Chip8Error::StackOverflow));
    assert_eq!(machine.stack_depth(), 16);
    assert_eq!(machine.pc(), 0x302);
    // The word behind the refused call is a return: sixteen returns unwind
    // the calls innermost first, each to the word behind its call.
    for level in (0..16usize).rev() {
        assert_eq!(machine.step(0), Ok(StepOutcome::Executed));
        assert_eq!(machine.pc() as usize, 0x200 + 0x10 * level + 2);
        assert_eq!(machine.stack_depth(), level);
    }
    // The return behind the outermost call finds the stack empty.
    assert_eq!(machine.step(0), Err(Chip8Error::StackUnderflow));
    assert_eq!(machine.stack_depth(), 0);
    assert_eq!(machine.pc(), 0x204);
}

#[test]
fn return_with_an_empty_stack_underflows() {
    let mut machine = Chip8::new();
    machine.load_program(&[0x00, 0xEE, 0x61, 0x07]).unwrap();
    assert_eq!(machine.step(0), Err(Chip8Error::StackUnderflow));
    assert_eq!(machine.pc(), 0x202);
    assert_eq!(machine.stack_depth(), 0);
    assert_eq!(machine.registers(), &[0u8; 16]);
    assert_eq!(machine.step(0), Ok(StepOutcome::Executed));
    assert_eq!(machine.registers()[1], 7);
}

#[test]
fn a_return_address_survives_later_calls_at_the_same_depth() {
    // call 0x300; there: return; back: call 0x310; there: return.
    let mut machine = Chip8::new();
    machine.load_program(&[0x23, 0x00, 0x23, 0x10, 0x6C, 0x09]).unwrap();
    machine.write_memory(0x300, &[0x00, 0xEE]).unwrap();
    machine.write_memory(0x310, &[0x00, 0xEE]).unwrap();
    let expected_pcs = [0x300, 0x202, 0x310, 0x204, 0x206];
    for expected in expected_pcs {
        assert_eq!(machine.step(0), Ok(StepOutcome::Executed));
        assert_eq!(machine.pc(), expected);
    }
    assert_eq!(machine.registers()[0xC], 9);
}
