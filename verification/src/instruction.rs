//! The instruction set: the decoded form of an opcode and the decoder.

use vstd::prelude::*;

verus! {

/// One decoded instruction. `x` and `y` name general registers, `addr` is a
/// 12-bit address, `nn` an 8-bit and `n` a 4-bit immediate.
#[derive(Clone, Copy, Debug, PartialEq, Eq, Structural)]
pub enum Instruction {
    /// `00E0`: blank the display.
    ClearScreen,
    /// `00EE`: return from a subroutine.
    Return,
    /// `1NNN`: jump to `addr`.
    Jump { addr: u16 },
    /// `2NNN`: call the subroutine at `addr`.
    Call { addr: u16 },
    /// `3XNN`: skip the next instruction if `Vx == nn`.
    SkipIfEqual { x: u8, nn: u8 },
    /// `4XNN`: skip the next instruction if `Vx != nn`.
    SkipIfNotEqual { x: u8, nn: u8 },
    /// `5XY0`: skip the next instruction if `Vx == Vy`.
    SkipIfRegistersEqual { x: u8, y: u8 },
    /// `6XNN`: `Vx = nn`.
    LoadImmediate { x: u8, nn: u8 },
    /// `7XNN`: `Vx = Vx + nn` modulo 256, flag untouched.
    AddImmediate { x: u8, nn: u8 },
    /// `8XY0`: `Vx = Vy`.
    Copy { x: u8, y: u8 },
    /// `8XY1`: `Vx = Vx | Vy`.
    BitOr { x: u8, y: u8 },
    /// `8XY2`: `Vx = Vx & Vy`.
    BitAnd { x: u8, y: u8 },
    /// `8XY3`: `Vx = Vx ^ Vy`.
    BitXor { x: u8, y: u8 },
    /// `8XY4`: `Vx = Vx + Vy` modulo 256, `VF` = carry.
    AddRegister { x: u8, y: u8 },
    /// `8XY5`: `Vx = Vx - Vy` modulo 256, `VF` = no borrow.
    SubtractRegister { x: u8, y: u8 },
    /// `8XY6`: shift right by one, `VF` = the bit shifted out.
    ShiftRight { x: u8, y: u8 },
    /// `8XY7`: `Vx = Vy - Vx` modulo 256, `VF` = no borrow.
    SubtractFrom { x: u8, y: u8 },
    /// `8XYE`: shift left by one, `VF` = the bit shifted out.
    ShiftLeft { x: u8, y: u8 },
    /// `9XY0`: skip the next instruction if `Vx != Vy`.
    SkipIfRegistersDiffer { x: u8, y: u8 },
    /// `ANNN`: `I = addr`.
    LoadIndex { addr: u16 },
    /// `BNNN`: jump to `addr` plus a register; `x` is the top nibble of `addr`.
    JumpWithOffset { x: u8, addr: u16 },
    /// `CXNN`: `Vx = nn & random byte`.
    Random { x: u8, nn: u8 },
    /// `DXYN`: draw the `n`-row sprite at `I` at position `(Vx, Vy)`.
    Draw { x: u8, y: u8, n: u8 },
    /// `EX9E`: skip the next instruction if key `Vx` is held.
    SkipIfKeyHeld { x: u8 },
    /// `EXA1`: skip the next instruction if key `Vx` is not held.
    SkipIfKeyNotHeld { x: u8 },
    /// `FX07`: `Vx = delay timer`.
    ReadDelayTimer { x: u8 },
    /// `FX0A`: wait until a key is released, then `Vx = that key`.
    WaitForKey { x: u8 },
    /// `FX15`: `delay timer = Vx`.
    SetDelayTimer { x: u8 },
    /// `FX18`: `sound timer = Vx`.
    SetSoundTimer { x: u8 },
    /// `FX1E`: `I = I + Vx`.
    AddToIndex { x: u8 },
    /// `FX29`: `I` = address of the glyph for the digit in `Vx`.
    FontGlyph { x: u8 },
    /// `FX33`: store the three decimal digits of `Vx` at `I`, `I+1`, `I+2`.
    StoreDecimal { x: u8 },
    /// `FX55`: store `V0..=Vx` at `I`.
    StoreRegisters { x: u8 },
    /// `FX65`: load `V0..=Vx` from `I`.
    LoadRegisters { x: u8 },
}

impl Instruction {
    /// Every field is as wide as the opcode field it came from: register
    /// numbers and `n` fit in a nibble, addresses in twelve bits.
    pub open spec fn wf(self) -> bool {
        match self {
            Instruction::ClearScreen | Instruction::Return => true,
            Instruction::Jump { addr } | Instruction::Call { addr } | Instruction::LoadIndex {
                addr,
            } => addr < 0x1000,
            Instruction::JumpWithOffset { x, addr } => addr < 0x1000 && x == addr / 0x100,
            Instruction::SkipIfEqual { x, .. }
            | Instruction::SkipIfNotEqual { x, .. }
            | Instruction::LoadImmediate { x, .. }
            | Instruction::AddImmediate { x, .. }
            | Instruction::Random { x, .. }
            | Instruction::SkipIfKeyHeld { x }
            | Instruction::SkipIfKeyNotHeld { x }
            | Instruction::ReadDelayTimer { x }
            | Instruction::WaitForKey { x }
            | Instruction::SetDelayTimer { x }
            | Instruction::SetSoundTimer { x }
            | Instruction::AddToIndex { x }
            | Instruction::FontGlyph { x }
            | Instruction::StoreDecimal { x }
            | Instruction::StoreRegisters { x }
            | Instruction::LoadRegisters { x } => x < 16,
            Instruction::SkipIfRegistersEqual { x, y }
            | Instruction::Copy { x, y }
            | Instruction::BitOr { x, y }
            | Instruction::BitAnd { x, y }
            | Instruction::BitXor { x, y }
            | Instruction::AddRegister { x, y }
            | Instruction::SubtractRegister { x, y }
            | Instruction::ShiftRight { x, y }
            | Instruction::SubtractFrom { x, y }
            | Instruction::ShiftLeft { x, y }
            | Instruction::SkipIfRegistersDiffer { x, y } => x < 16 && y < 16,
            Instruction::Draw { x, y, n } => x < 16 && y < 16 && n < 16,
        }
    }
}

/// The top nibble of an opcode: its category.
pub open spec fn opcode_category(opcode: u16) -> u16 {
    opcode / 0x1000
}

/// The second nibble of an opcode: the register number `x`.
pub open spec fn opcode_x(opcode: u16) -> u8 {
    ((opcode / 0x100) % 0x10) as u8
}

/// The third nibble of an opcode: the register number `y`.
pub open spec fn opcode_y(opcode: u16) -> u8 {
    ((opcode / 0x10) % 0x10) as u8
}

/// The low nibble of an opcode.
pub open spec fn opcode_n(opcode: u16) -> u8 {
    (opcode % 0x10) as u8
}

/// The low byte of an opcode.
pub open spec fn opcode_nn(opcode: u16) -> u8 {
    (opcode % 0x100) as u8
}

/// The low twelve bits of an opcode.
pub open spec fn opcode_nnn(opcode: u16) -> u16 {
    opcode % 0x1000
}

/// The arithmetic and logic family `8XYN`, selected by its low nibble.
pub open spec fn decode_alu(x: u8, y: u8, n: u8) -> Option<Instruction> {
    if n == 0x0 {
        Some(Instruction::Copy { x, y })
    } else if n == 0x1 {
        Some(Instruction::BitOr { x, y })
    } else if n == 0x2 {
        Some(Instruction::BitAnd { x, y })
    } else if n == 0x3 {
        Some(Instruction::BitXor { x, y })
    } else if n == 0x4 {
        Some(Instruction::AddRegister { x, y })
    } else if n == 0x5 {
        Some(Instruction::SubtractRegister { x, y })
    } else if n == 0x6 {
        Some(Instruction::ShiftRight { x, y })
    } else if n == 0x7 {
        Some(Instruction::SubtractFrom { x, y })
    } else if n == 0xE {
        Some(Instruction::ShiftLeft { x, y })
    } else {
        None
    }
}

/// The timer, index and memory family `FXNN`, selected by its low byte.
pub open spec fn decode_misc(x: u8, nn: u8) -> Option<Instruction> {
    if nn == 0x07 {
        Some(Instruction::ReadDelayTimer { x })
    } else if nn == 0x0A {
        Some(Instruction::WaitForKey { x })
    } else if nn == 0x15 {
        Some(Instruction::SetDelayTimer { x })
    } else if nn == 0x18 {
        Some(Instruction::SetSoundTimer { x })
    } else if nn == 0x1E {
        Some(Instruction::AddToIndex { x })
    } else if nn == 0x29 {
        Some(Instruction::FontGlyph { x })
    } else if nn == 0x33 {
        Some(Instruction::StoreDecimal { x })
    } else if nn == 0x55 {
        Some(Instruction::StoreRegisters { x })
    } else if nn == 0x65 {
        Some(Instruction::LoadRegisters { x })
    } else {
        None
    }
}

/// The instruction that an opcode stands for, or `None` where the bit pattern
/// is not one of the machine's instructions. The register-compare opcodes
/// `5XY0` and `9XY0` are recognised only with a zero low nibble.
pub open spec fn decode_spec(opcode: u16) -> Option<Instruction> {
    let c = opcode_category(opcode);
    let x = opcode_x(opcode);
    let y = opcode_y(opcode);
    let n = opcode_n(opcode);
    let nn = opcode_nn(opcode);
    let addr = opcode_nnn(opcode);
    if c == 0x0 {
        if opcode == 0x00E0 {
            Some(Instruction::ClearScreen)
        } else if opcode == 0x00EE {
            Some(Instruction::Return)
        } else {
            None
        }
    } else if c == 0x1 {
        Some(Instruction::Jump { addr })
    } else if c == 0x2 {
        Some(Instruction::Call { addr })
    } else if c == 0x3 {
        Some(Instruction::SkipIfEqual { x, nn })
    } else if c == 0x4 {
        Some(Instruction::SkipIfNotEqual { x, nn })
    } else if c == 0x5 {
        if n == 0 {
            Some(Instruction::SkipIfRegistersEqual { x, y })
        } else {
            None
        }
    } else if c == 0x6 {
        Some(Instruction::LoadImmediate { x, nn })
    } else if c == 0x7 {
        Some(Instruction::AddImmediate { x, nn })
    } else if c == 0x8 {
        decode_alu(x, y, n)
    } else if c == 0x9 {
        if n == 0 {
            Some(Instruction::SkipIfRegistersDiffer { x, y })
        } else {
            None
        }
    } else if c == 0xA {
        Some(Instruction::LoadIndex { addr })
    } else if c == 0xB {
        Some(Instruction::JumpWithOffset { x, addr })
    } else if c == 0xC {
        Some(Instruction::Random { x, nn })
    } else if c == 0xD {
        Some(Instruction::Draw { x, y, n })
    } else if c == 0xE {
        if nn == 0x9E {
            Some(Instruction::SkipIfKeyHeld { x })
        } else if nn == 0xA1 {
            Some(Instruction::SkipIfKeyNotHeld { x })
        } else {
            None
        }
    } else {
        decode_misc(x, nn)
    }
}

/// The opcode whose four nibbles are `category`, `x`, `y` and `n`, from the
/// most to the least significant.
pub open spec fn opcode_of(category: u16, x: u8, y: u8, n: u8) -> u16 {
    (category * 0x1000 + x * 0x100 + y * 0x10 + n) as u16
}

/// The opcode whose top nibbles are `category` and `x` and whose low byte is
/// `nn`.
pub open spec fn opcode_with_byte(category: u16, x: u8, nn: u8) -> u16 {
    opcode_of(category, x, nn / 0x10, nn % 0x10)
}

/// An opcode put together from four nibbles falls apart into those nibbles.
pub proof fn lemma_opcode_fields(category: u16, x: u8, y: u8, n: u8)
    requires
        category < 16,
        x < 16,
        y < 16,
        n < 16,
    ensures
        opcode_category(opcode_of(category, x, y, n)) == category,
        opcode_x(opcode_of(category, x, y, n)) == x,
        opcode_y(opcode_of(category, x, y, n)) == y,
        opcode_n(opcode_of(category, x, y, n)) == n,
        opcode_nn(opcode_of(category, x, y, n)) == y * 0x10 + n,
        opcode_nnn(opcode_of(category, x, y, n)) == x * 0x100 + y * 0x10 + n,
{
    let opcode = opcode_of(category, x, y, n);
    assert(opcode == category * 0x1000 + x * 0x100 + y * 0x10 + n);
    assert(opcode / 0x1000 == category && (opcode / 0x100) % 0x10 == x && (opcode / 0x10) % 0x10
        == y && opcode % 0x10 == n && opcode % 0x100 == y * 0x10 + n && opcode % 0x1000 == x
        * 0x100 + y * 0x10 + n) by (bit_vector)
        requires
            category < 16,
            x < 16,
            y < 16,
            n < 16,
            opcode == category * 0x1000 + x * 0x100 + y * 0x10 + n,
    ;
}

/// Splits an opcode into its fields and names the instruction, if it is one.
pub fn decode(opcode: u16) -> (result: Option<Instruction>)
    ensures
        result == decode_spec(opcode),
        result matches Some(instruction) ==> instruction.wf(),
{
    let c: u16 = (opcode & 0xf000) >> 12;
    let x: u8 = ((opcode & 0x0f00) >> 8) as u8;
    let y: u8 = ((opcode & 0x00f0) >> 4) as u8;
    let n: u8 = (opcode & 0x000f) as u8;
    let nn: u8 = (opcode & 0x00ff) as u8;
    let addr: u16 = opcode & 0x0fff;
    assert(c == opcode / 0x1000 && c < 16 && x == ((opcode / 0x100) % 0x10) as u8 && x < 16 && y
        == ((opcode / 0x10) % 0x10) as u8 && y < 16 && n == (opcode % 0x10) as u8 && n < 16 && nn
        == (opcode % 0x100) as u8 && addr == opcode % 0x1000 && addr < 0x1000 && x == addr / 0x100)
        by (bit_vector)
        requires
            c == (opcode & 0xf000) >> 12,
            x == ((opcode & 0x0f00) >> 8) as u8,
            y == ((opcode & 0x00f0) >> 4) as u8,
            n == (opcode & 0x000f) as u8,
            nn == (opcode & 0x00ff) as u8,
            addr == opcode & 0x0fff,
    ;
    match c {
        0x0 => match opcode {
            0x00e0 => Some(Instruction::ClearScreen),
            0x00ee => Some(Instruction::Return),
            _ => None,
        },
        0x1 => Some(Instruction::Jump { addr }),
        0x2 => Some(Instruction::Call { addr }),
        0x3 => Some(Instruction::SkipIfEqual { x, nn }),
        0x4 => Some(Instruction::SkipIfNotEqual { x, nn }),
        0x5 => if n == 0 {
            Some(Instruction::SkipIfRegistersEqual { x, y })
        } else {
            None
        },
        0x6 => Some(Instruction::LoadImmediate { x, nn }),
        0x7 => Some(Instruction::AddImmediate { x, nn }),
        0x8 => match n {
            0x0 => Some(Instruction::Copy { x, y }),
            0x1 => Some(Instruction::BitOr { x, y }),
            0x2 => Some(Instruction::BitAnd { x, y }),
            0x3 => Some(Instruction::BitXor { x, y }),
            0x4 => Some(Instruction::AddRegister { x, y }),
            0x5 => Some(Instruction::SubtractRegister { x, y }),
            0x6 => Some(Instruction::ShiftRight { x, y }),
            0x7 => Some(Instruction::SubtractFrom { x, y }),
            0xe => Some(Instruction::ShiftLeft { x, y }),
            _ => None,
        },
        0x9 => if n == 0 {
            Some(Instruction::SkipIfRegistersDiffer { x, y })
        } else {
            None
        },
        0xa => Some(Instruction::LoadIndex { addr }),
        0xb => Some(Instruction::JumpWithOffset { x, addr }),
        0xc => Some(Instruction::Random { x, nn }),
        0xd => Some(Instruction::Draw { x, y, n }),
        0xe => match nn {
            0x9e => Some(Instruction::SkipIfKeyHeld { x }),
            0xa1 => Some(Instruction::SkipIfKeyNotHeld { x }),
            _ => None,
        },
        _ => match nn {
            0x07 => Some(Instruction::ReadDelayTimer { x }),
            0x0a => Some(Instruction::WaitForKey { x }),
            0x15 => Some(Instruction::SetDelayTimer { x }),
            0x18 => Some(Instruction::SetSoundTimer { x }),
            0x1e => Some(Instruction::AddToIndex { x }),
            0x29 => Some(Instruction::FontGlyph { x }),
            0x33 => Some(Instruction::StoreDecimal { x }),
            0x55 => Some(Instruction::StoreRegisters { x }),
            0x65 => Some(Instruction::LoadRegisters { x }),
            _ => None,
        },
    }
}

} // verus!
