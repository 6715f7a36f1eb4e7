use chip8_vm::{decode, Instruction};

#[test]
fn decode_names_every_instruction() {
    let cases: [(u16, Instruction); 35] = [
        (0x00E0, Instruction::ClearScreen),
        (0x00EE, Instruction::Return),
        (0x1ABC, Instruction::Jump { addr: 0xABC }),
        (0x2FFF, Instruction::Call { addr: 0xFFF }),
        (0x3A12, Instruction::SkipIfEqual { x: 0xA, nn: 0x12 }),
        (0x4B34, Instruction::SkipIfNotEqual { x: 0xB, nn: 0x34 }),
        (0x5CD0, Instruction::SkipIfRegistersEqual { x: 0xC, y: 0xD }),
        (0x6E56, Instruction::LoadImmediate { x: 0xE, nn: 0x56 }),
        (0x7F78, Instruction::AddImmediate { x: 0xF, nn: 0x78 }),
        (0x8120, Instruction::Copy { x: 1, y: 2 }),
        (0x8121, Instruction::BitOr { x: 1, y: 2 }),
        (0x8122, Instruction::BitAnd { x: 1, y: 2 }),
        (0x8123, Instruction::BitXor { x: 1, y: 2 }),
        (0x8124, Instruction::AddRegister { x: 1, y: 2 }),
        (0x8125, Instruction::SubtractRegister { x: 1, y: 2 }),
        (0x8126, Instruction::ShiftRight { x: 1, y: 2 }),
        (0x8127, Instruction::SubtractFrom { x: 1, y: 2 }),
        (0x812E, Instruction::ShiftLeft { x: 1, y: 2 }),
        (0x9340, Instruction::SkipIfRegistersDiffer { x: 3, y: 4 }),
        (0xA000, Instruction::LoadIndex { addr: 0 }),
        (0xB789, Instruction::JumpWithOffset { x: 7, addr: 0x789 }),
        (0xC5AA, Instruction::Random { x: 5, nn: 0xAA }),
        (0xD67F, Instruction::Draw { x: 6, y: 7, n: 0xF }),
        (0xE89E, Instruction::SkipIfKeyHeld { x: 8 }),
        (0xE9A1, Instruction::SkipIfKeyNotHeld { x: 9 }),
        (0xF007, Instruction::ReadDelayTimer { x: 0 }),
        (0xF10A, Instruction::WaitForKey { x: 1 }),
        (0xF215, Instruction::SetDelayTimer { x: 2 }),
        (0xF318, Instruction::SetSoundTimer { x: 3 }),
        (0xF41E, Instruction::AddToIndex { x: 4 }),
        (0xF529, Instruction::FontGlyph { x: 5 }),
        (0xF633, Instruction::StoreDecimal { x: 6 }),
        (0xF755, Instruction::StoreRegisters { x: 7 }),
        (0xF865, Instruction::LoadRegisters { x: 8 }),
        (0xFF65, Instruction::LoadRegisters { x: 0xF }),
    ];
    for (opcode, instruction) in cases {
        assert_eq!(decode(opcode), Some(instruction), "opcode {opcode:04x}");
    }
}

#[test]
fn decode_refuses_what_is_no_instruction() {
    for opcode in [
        0x0000u16, 0x00E1, 0x00EF, 0x0123, 0x0FFF, 0x5121, 0x512F, 0x8128, 0x8129, 0x812A,
        0x812B, 0x812C, 0x812D, 0x812F, 0x9121, 0xE19F, 0xE1A0, 0xE100, 0xF100, 0xF108, 0xF11F,
        0xF130, 0xF154, 0xF166, 0xF1FF,
    ] {
        assert_eq!(decode(opcode), None, "opcode {opcode:04x}");
    }
}

#[test]
fn decode_agrees_with_the_opcode_table_on_every_word() {
    let mut recognised = 0u32;
    for word in 0..=0xFFFFu16 {
        let c = word >> 12;
        let n = word & 0xF;
        let nn = word & 0xFF;
        let expected = match c {
            0x0 => word == 0x00E0 || word == 0x00EE,
            0x5 | 0x9 => n == 0,
            0x8 => n <= 7 || n == 0xE,
            0xE => nn == 0x9E || nn == 0xA1,
            0xF => matches!(nn, 0x07 | 0x0A | 0x15 | 0x18 | 0x1E | 0x29 | 0x33 | 0x55 | 0x65),
            _ => true,
        };
        assert_eq!(decode(word).is_some(), expected, "opcode {word:04x}");
        if expected {
            recognised += 1;
        }
    }
    assert_eq!(recognised, 2 + 10 * 4096 + 2 * 256 + 9 * 256 + 2 * 16 + 9 * 16);
}
