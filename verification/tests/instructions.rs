use chip8_vm::{Chip8, Chip8Error, StepOutcome};

fn run_program(quirks: bool, program: &[u8], steps: usize) -> Chip8 {
    let mut machine = Chip8::with_quirks(quirks);
    machine.load_program(program).unwrap();
    for _ in 0..steps {
        assert_eq!(machine.step(0), Ok(StepOutcome::Executed));
    }
    machine
}

#[test]
fn load_immediate_sets_only_vx() {
    for x in 0..16u8 {
        let machine = run_program(false, &[0x60 | x, 0xAB], 1);
        for r in 0..16usize {
            let expected = if r == x as usize { 0xAB } else { 0 };
            assert_eq!(machine.registers()[r], expected);
        }
        assert_eq!(machine.pc(), 0x202);
    }
}

#[test]
fn add_immediate_wraps_and_leaves_the_flag() {
    // V3 = 250; V3 += 10
    let machine = run_program(false, &[0x63, 250, 0x73, 10], 2);
    assert_eq!(machine.registers()[3], 4);
    assert_eq!(machine.registers()[0xF], 0);
    // With VF set beforehand it stays set.
    let machine = run_program(false, &[0x6F, 1, 0x63, 250, 0x73, 10], 3);
    assert_eq!(machine.registers()[3], 4);
    assert_eq!(machine.registers()[0xF], 1);
}

#[test]
fn add_registers_sets_the_carry() {
    let machine = run_program(false, &[0x61, 200, 0x62, 100, 0x81, 0x24], 3);
    assert_eq!(machine.registers()[1], 44);
    assert_eq!(machine.registers()[2], 100);
    assert_eq!(machine.registers()[0xF], 1);
    let machine = run_program(false, &[0x6F, 1, 0x61, 10, 0x62, 20, 0x81, 0x24], 4);
    assert_eq!(machine.registers()[1], 30);
    assert_eq!(machine.registers()[0xF], 0);
    // 255 + 0 does not carry, 255 + 1 does.
    let machine = run_program(false, &[0x61, 255, 0x62, 0, 0x81, 0x24], 3);
    assert_eq!((machine.registers()[1], machine.registers()[0xF]), (255, 0));
    let machine = run_program(false, &[0x61, 255, 0x62, 1, 0x81, 0x24], 3);
    assert_eq!((machine.registers()[1], machine.registers()[0xF]), (0, 1));
}

#[test]
fn add_registers_into_the_flag_register_keeps_the_carry() {
    // VF = 200; V1 = 100; VF += V1: the carry is written last.
    let machine = run_program(false, &[0x6F, 200, 0x61, 100, 0x8F, 0x14], 3);
    assert_eq!(machine.registers()[0xF], 1);
    let machine = run_program(false, &[0x6F, 2, 0x61, 3, 0x8F, 0x14], 3);
    assert_eq!(machine.registers()[0xF], 0);
}

#[test]
fn subtract_registers_sets_the_no_borrow_flag() {
    let machine = run_program(false, &[0x61, 5, 0x62, 10, 0x81, 0x25], 3);
    assert_eq!(machine.registers()[1], 251);
    assert_eq!(machine.registers()[0xF], 0);
    let machine = run_program(false, &[0x61, 10, 0x62, 5, 0x81, 0x25], 3);
    assert_eq!(machine.registers()[1], 5);
    assert_eq!(machine.registers()[0xF], 1);
    let machine = run_program(false, &[0x61, 7, 0x62, 7, 0x81, 0x25], 3);
    assert_eq!(machine.registers()[1], 0);
    assert_eq!(machine.registers()[0xF], 1);
}

#[test]
fn subtract_from_computes_vy_minus_vx() {
    let machine = run_program(false, &[0x61, 5, 0x62, 10, 0x81, 0x27], 3);
    assert_eq!(machine.registers()[1], 5);
    assert_eq!(machine.registers()[2], 10);
    assert_eq!(machine.registers()[0xF], 1);
    let machine = run_program(false, &[0x61, 10, 0x62, 5, 0x81, 0x27], 3);
    assert_eq!(machine.registers()[1], 251);
    assert_eq!(machine.registers()[0xF], 0);
}

#[test]
fn copy_and_bitwise_operations() {
    let machine = run_program(false, &[0x61, 0b1100, 0x62, 0b1010, 0x81, 0x20], 3);
    assert_eq!(machine.registers()[1], 0b1010);
    let machine = run_program(false, &[0x61, 0b1100, 0x62, 0b1010, 0x81, 0x21], 3);
    assert_eq!(machine.registers()[1], 0b1110);
    let machine = run_program(false, &[0x61, 0b1100, 0x62, 0b1010, 0x81, 0x22], 3);
    assert_eq!(machine.registers()[1], 0b1000);
    let machine = run_program(false, &[0x61, 0b1100, 0x62, 0b1010, 0x81, 0x23], 3);
    assert_eq!(machine.registers()[1], 0b0110);
    assert_eq!(machine.registers()[2], 0b1010);
    assert_eq!(machine.registers()[0xF], 0);
}

#[test]
fn shift_right_takes_vy_without_quirks_and_vx_with() {
    // V1 = 0x04, V2 = 0x0B
    let program = [0x61, 0x04, 0x62, 0x0B, 0x81, 0x26];
    let machine = run_program(false, &program, 3);
    assert_eq!(machine.registers()[1], 0x05);
    assert_eq!(machine.registers()[2], 0x0B);
    assert_eq!(machine.registers()[0xF], 1);
    let machine = run_program(true, &program, 3);
    assert_eq!(machine.registers()[1], 0x02);
    assert_eq!(machine.registers()[2], 0x0B);
    assert_eq!(machine.registers()[0xF], 0);
}

#[test]
fn shift_left_takes_vy_without_quirks_and_vx_with() {
    // V1 = 0x41, V2 = 0x81
    let program = [0x61, 0x41, 0x62, 0x81, 0x81, 0x2E];
    let machine = run_program(false, &program, 3);
    assert_eq!(machine.registers()[1], 0x02);
    assert_eq!(machine.registers()[0xF], 1);
    let machine = run_program(true, &program, 3);
    assert_eq!(machine.registers()[1], 0x82);
    assert_eq!(machine.registers()[0xF], 0);
}

#[test]
fn skips_on_immediate_comparison() {
    let machine = run_program(false, &[0x61, 7, 0x31, 7], 2);
    assert_eq!(machine.pc(), 0x206);
    let machine = run_program(false, &[0x61, 7, 0x31, 8], 2);
    assert_eq!(machine.pc(), 0x204);
    let machine = run_program(false, &[0x61, 7, 0x41, 7], 2);
    assert_eq!(machine.pc(), 0x204);
    let machine = run_program(false, &[0x61, 7, 0x41, 8], 2);
    assert_eq!(machine.pc(), 0x206);
}

#[test]
fn skips_on_register_comparison() {
    let machine = run_program(false, &[0x61, 7, 0x62, 7, 0x51, 0x20], 3);
    assert_eq!(machine.pc(), 0x208);
    let machine = run_program(false, &[0x61, 7, 0x62, 8, 0x51, 0x20], 3);
    assert_eq!(machine.pc(), 0x206);
    let machine = run_program(false, &[0x61, 7, 0x62, 7, 0x91, 0x20], 3);
    assert_eq!(machine.pc(), 0x206);
    let machine = run_program(false, &[0x61, 7, 0x62, 8, 0x91, 0x20], 3);
    assert_eq!(machine.pc(), 0x208);
}

#[test]
fn two_step_program_adds_five_and_ten() {
    let machine = run_program(false, &[0x60, 0x05, 0x70, 0x0A], 2);
    assert_eq!(machine.registers()[0], 0x0F);
    assert_eq!(machine.registers()[0xF], 0);
    assert_eq!(machine.pc(), 0x204);
}

#[test]
fn font_glyph_points_at_five_bytes_per_digit() {
    let machine = run_program(false, &[0x64, 10, 0xF4, 0x29], 2);
    assert_eq!(machine.index(), 50);
    let machine = run_program(false, &[0x64, 0, 0xF4, 0x29], 2);
    assert_eq!(machine.index(), 0);
    let machine = run_program(false, &[0x64, 255, 0xF4, 0x29], 2);
    assert_eq!(machine.index(), 1275);
}

#[test]
fn load_index_and_add_to_index() {
    let machine = run_program(false, &[0xA1, 0x23], 1);
    assert_eq!(machine.index(), 0x123);
    // I = 0x123; V1 = 0x10; I += V1
    let machine = run_program(false, &[0xA1, 0x23, 0x61, 0x10, 0xF1, 0x1E], 3);
    assert_eq!(machine.index(), 0x133);
    assert_eq!(machine.registers()[0xF], 0);
}

#[test]
fn add_to_index_flags_leaving_the_address_space() {
    // I = 0xFFF; V1 = 1; I += V1
    let machine = run_program(false, &[0xAF, 0xFF, 0x61, 0x01, 0xF1, 0x1E], 3);
    assert_eq!(machine.index(), 0x1000);
    assert_eq!(machine.registers()[0xF], 1);
    // Beyond the address space the flag is left alone: VF = 0 stays 0.
    let machine = run_program(
        false,
        &[0xAF, 0xFF, 0x61, 0x01, 0xF1, 0x1E, 0x6F, 0x00, 0xF1, 0x1E],
        5,
    );
    assert_eq!(machine.index(), 0x1001);
    assert_eq!(machine.registers()[0xF], 0);
    // Below the boundary a set flag stays set.
    let machine = run_program(false, &[0x6F, 0x01, 0xA0, 0x10, 0x61, 0x01, 0xF1, 0x1E], 4);
    assert_eq!(machine.index(), 0x11);
    assert_eq!(machine.registers()[0xF], 1);
}

#[test]
fn add_to_index_wraps_at_sixteen_bits() {
    // I = 0xFFF, then 257 times I += 0xEF brings I to 0xFFF + 257 * 0xEF = 0xFFEE;
    // adding 0xEF once more wraps to 0x00DD.
    let mut program = vec![0xAF, 0xFF, 0x61, 0xEF];
    for _ in 0..258 {
        program.push(0xF1);
        program.push(0x1E);
    }
    let machine = run_program(false, &program, 2 + 257);
    assert_eq!(machine.index(), 0xFFEE);
    let machine = run_program(false, &program, 2 + 258);
    assert_eq!(machine.index(), 0x00DD);
}

#[test]
fn store_decimal_writes_three_digits() {
    let mut machine = run_program(false, &[0x61, 254, 0xA3, 0x00, 0xF1, 0x33], 3);
    assert_eq!(machine.read_memory(0x2FF, 5).unwrap(), &[0u8, 2, 5, 4, 0][..]);
    assert_eq!(machine.index(), 0x300);
    machine.load_program_at(0x206, &[0x61, 7, 0xF1, 0x33]).unwrap();
    machine.step(0).unwrap();
    machine.step(0).unwrap();
    assert_eq!(machine.read_memory(0x300, 3).unwrap(), &[0u8, 0, 7][..]);
}

#[test]
fn store_decimal_out_of_range_changes_nothing_but_pc() {
    let mut machine = Chip8::new();
    machine.load_program(&[0x61, 123, 0xAF, 0xFE, 0xF1, 0x33]).unwrap();
    machine.step(0).unwrap();
    machine.step(0).unwrap();
    assert_eq!(
        machine.step(0),
        Err(Chip8Error::OutOfRange { address: 0xFFE, length: 3 })
    );
    assert_eq!(machine.read_memory(0xFFE, 2).unwrap(), &[0u8, 0][..]);
    assert_eq!(machine.pc(), 0x206);
    assert_eq!(machine.index(), 0xFFE);
}

#[test]
fn store_registers_advances_the_index_without_quirks() {
    let program = [0x60, 0x11, 0x61, 0x22, 0x62, 0x33, 0xA3, 0x00, 0xF1, 0x55];
    let machine = run_program(false, &program, 5);
    assert_eq!(machine.read_memory(0x300, 3).unwrap(), &[0x11u8, 0x22, 0][..]);
    assert_eq!(machine.index(), 0x302);
    let machine = run_program(true, &program, 5);
    assert_eq!(machine.read_memory(0x300, 3).unwrap(), &[0x11u8, 0x22, 0][..]);
    assert_eq!(machine.index(), 0x300);
}

#[test]
fn load_registers_advances_the_index_without_quirks() {
    let program = [0x63, 0x77, 0xA2, 0x08, 0xF2, 0x65, 0x00, 0x00, 0x0A, 0x0B, 0x0C, 0x0D];
    let machine = run_program(false, &program, 3);
    assert_eq!(&machine.registers()[0..5], &[0x0Au8, 0x0B, 0x0C, 0x77, 0][..]);
    assert_eq!(machine.index(), 0x20B);
    let machine = run_program(true, &program, 3);
    assert_eq!(&machine.registers()[0..5], &[0x0Au8, 0x0B, 0x0C, 0x77, 0][..]);
    assert_eq!(machine.index(), 0x208);
}

#[test]
fn store_and_load_all_sixteen_registers_at_the_end_of_memory() {
    let mut machine = Chip8::new();
    let mut program = Vec::new();
    for x in 0..16u8 {
        program.push(0x60 | x);
        program.push(0xA0 + x);
    }
    program.extend_from_slice(&[0xAF, 0xF0, 0xFF, 0x55]);
    machine.load_program(&program).unwrap();
    for _ in 0..18 {
        assert_eq!(machine.step(0), Ok(StepOutcome::Executed));
    }
    let expected: Vec<u8> = (0..16u8).map(|x| 0xA0 + x).collect();
    assert_eq!(machine.read_memory(0xFF0, 16).unwrap(), &expected[..]);
    assert_eq!(machine.index(), 0x1000);
}

#[test]
fn register_transfer_out_of_range_changes_nothing_but_pc() {
    // I = 0xFFF, store V0..V1 needs two bytes.
    let mut machine = Chip8::new();
    machine.load_program(&[0x60, 0x55, 0xAF, 0xFF, 0xF1, 0x55, 0xF1, 0x65]).unwrap();
    machine.step(0).unwrap();
    machine.step(0).unwrap();
    assert_eq!(
        machine.step(0),
        Err(Chip8Error::OutOfRange { address: 0xFFF, length: 2 })
    );
    assert_eq!(machine.read_byte(0xFFF), Ok(0));
    assert_eq!(machine.index(), 0xFFF);
    assert_eq!(machine.pc(), 0x206);
    assert_eq!(
        machine.step(0),
        Err(Chip8Error::OutOfRange { address: 0xFFF, length: 2 })
    );
    assert_eq!(machine.registers()[0], 0x55);
    assert_eq!(machine.index(), 0xFFF);
    assert_eq!(machine.pc(), 0x208);
}

#[test]
fn random_is_masked_by_nn() {
    for byte in [0x00u8, 0x5A, 0xA5, 0xFF] {
        let mut machine = Chip8::new();
        machine.load_program(&[0xC1, 0x3C, 0xC2, 0xFF, 0xC3, 0x00]).unwrap();
        assert_eq!(machine.step(byte), Ok(StepOutcome::Executed));
        assert_eq!(machine.step(byte), Ok(StepOutcome::Executed));
        assert_eq!(machine.step(byte), Ok(StepOutcome::Executed));
        assert_eq!(machine.registers()[1], byte & 0x3C);
        assert_eq!(machine.registers()[2], byte);
        assert_eq!(machine.registers()[3], 0);
    }
}

#[test]
fn fetch_decode_execute_draws_its_own_random_byte() {
    let mut machine = Chip8::new();
    let mut program = Vec::new();
    for _ in 0..64 {
        program.extend_from_slice(&[0xC1, 0x0F, 0xC2, 0x00]);
    }
    machine.load_program(&program).unwrap();
    for _ in 0..64 {
        assert_eq!(machine.fetch_decode_execute(), Ok(StepOutcome::Executed));
        assert_eq!(machine.registers()[1] & 0xF0, 0);
        assert_eq!(machine.fetch_decode_execute(), Ok(StepOutcome::Executed));
        assert_eq!(machine.registers()[2], 0);
    }
    assert_eq!(machine.pc(), 0x200 + 256);
}

#[test]
fn fetch_decode_execute_runs_other_instructions_as_step_does() {
    let program = [0x60, 0x05, 0x70, 0x0A, 0x80, 0x0E, 0xA1, 0x23, 0xF0, 0x33, 0x12, 0x00];
    let mut stepped = Chip8::new();
    let mut driven = Chip8::new();
    stepped.load_program(&program).unwrap();
    driven.load_program(&program).unwrap();
    for _ in 0..14 {
        assert_eq!(driven.fetch_decode_execute(), stepped.step(0x77));
        assert_eq!(driven.pc(), stepped.pc());
        assert_eq!(driven.index(), stepped.index());
        assert_eq!(driven.registers(), stepped.registers());
        assert_eq!(driven.read_memory(0, 4096), stepped.read_memory(0, 4096));
    }
}

#[test]
fn timer_instructions_move_values_between_registers_and_timers() {
    // V1 = 9; delay = V1; sound = V1; V2 = delay
    let machine = run_program(false, &[0x61, 9, 0xF1, 0x15, 0xF1, 0x18, 0xF2, 0x07], 4);
    assert_eq!(machine.delay_timer(), 9);
    assert_eq!(machine.sound_timer(), 9);
    assert_eq!(machine.registers()[2], 9);
}

#[test]
fn invalid_opcode_is_reported_with_pc_past_it() {
    for opcode in [
        [0x00u8, 0x00],
        [0x00, 0xE1],
        [0x0F, 0xFF],
        [0x51, 0x21],
        [0x81, 0x28],
        [0x81, 0x2F],
        [0x91, 0x2F],
        [0xE1, 0x9F],
        [0xE1, 0x00],
        [0xF1, 0x00],
        [0xF1, 0x56],
        [0xFF, 0xFF],
    ] {
        let mut machine = Chip8::new();
        machine.load_program(&[0x6A, 0x42, opcode[0], opcode[1], 0x7A, 0x01]).unwrap();
        assert_eq!(machine.step(0), Ok(StepOutcome::Executed));
        let word = u16::from_be_bytes(opcode);
        assert_eq!(machine.step(0), Err(Chip8Error::InvalidOpcode { opcode: word }));
        assert_eq!(machine.pc(), 0x204);
        assert_eq!(machine.registers()[0xA], 0x42);
        assert_eq!(machine.stack_depth(), 0);
        // The host may go on behind the offending word.
        assert_eq!(machine.step(0), Ok(StepOutcome::Executed));
        assert_eq!(machine.registers()[0xA], 0x43);
    }
}

#[test]
fn fetch_beyond_memory_is_a_range_error_and_changes_nothing() {
    // Jump to 0xFFE, run the no-op-like instruction there, then fetch at 0x1000.
    let mut machine = Chip8::new();
    machine.load_program(&[0x1F, 0xFE]).unwrap();
    machine.write_memory(0xFFE, &[0x6B, 0x01]).unwrap();
    assert_eq!(machine.step(0), Ok(StepOutcome::Executed));
    assert_eq!(machine.pc(), 0xFFE);
    assert_eq!(machine.step(0), Ok(StepOutcome::Executed));
    assert_eq!(machine.pc(), 0x1000);
    assert_eq!(
        machine.step(0),
        Err(Chip8Error::OutOfRange { address: 0x1000, length: 2 })
    );
    assert_eq!(machine.pc(), 0x1000);
    assert_eq!(machine.registers()[0xB], 1);
    // A word that straddles the end of memory cannot be fetched either.
    let mut machine = Chip8::new();
    machine.load_program(&[0x1F, 0xFF]).unwrap();
    assert_eq!(machine.step(0), Ok(StepOutcome::Executed));
    assert_eq!(
        machine.fetch_decode_execute(),
        Err(Chip8Error::OutOfRange { address: 0xFFF, length: 2 })
    );
    assert_eq!(machine.pc(), 0xFFF);
}
