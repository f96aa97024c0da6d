//! Decoding of 16-bit opcodes into instructions.
//!
//! An opcode is four 4-bit nibbles. The first nibble, and for some families
//! the last one or two, select the instruction; the others are operands:
//! `nnn` (the low 12 bits, an address), `kk` (the low 8 bits, a byte), `x`
//! and `y` (the second and third nibble, register numbers) and `n` (the last
//! nibble, a count).

use vstd::prelude::*;

verus! {

/// One decoded instruction with its operands.
#[derive(Clone, Copy, Debug, PartialEq, Eq)]
pub enum Instruction {
    /// `00E0`: clear the display.
    ClearScreen,
    /// `00EE`: return from a subroutine.
    Return,
    /// `0nnn` other than the two above: a routine of the host machine, which
    /// the interpreter does not support.
    MachineRoutine { nnn: u16 },
    /// `1nnn`: jump to `nnn`.
    Jump { nnn: u16 },
    /// `2nnn`: call the subroutine at `nnn`.
    Call { nnn: u16 },
    /// `3xkk`: skip the next instruction if `Vx == kk`.
    SkipEqualByte { x: u8, kk: u8 },
    /// `4xkk`: skip the next instruction if `Vx != kk`.
    SkipNotEqualByte { x: u8, kk: u8 },
    /// `5xy0`: skip the next instruction if `Vx == Vy`.
    SkipEqual { x: u8, y: u8 },
    /// `6xkk`: `Vx := kk`.
    LoadByte { x: u8, kk: u8 },
    /// `7xkk`: `Vx := Vx + kk`, wrapping, no flag.
    AddByte { x: u8, kk: u8 },
    /// `8xy0`: `Vx := Vy`.
    Move { x: u8, y: u8 },
    /// `8xy1`: `Vx := Vx | Vy`.
    Or { x: u8, y: u8 },
    /// `8xy2`: `Vx := Vx & Vy`.
    And { x: u8, y: u8 },
    /// `8xy3`: `Vx := Vx ^ Vy`.
    Xor { x: u8, y: u8 },
    /// `8xy4`: `Vx := Vx + Vy`, wrapping; `VF` is the carry.
    Add { x: u8, y: u8 },
    /// `8xy5`: `Vx := Vx - Vy`, wrapping; `VF` is 1 when nothing was borrowed.
    Subtract { x: u8, y: u8 },
    /// `8xy6`: `Vx := Vy >> 1`; `VF` is the bit shifted out.
    ShiftRight { x: u8, y: u8 },
    /// `8xy7`: `Vx := Vy - Vx`, wrapping; `VF` is 1 when nothing was borrowed.
    SubtractFrom { x: u8, y: u8 },
    /// `8xyE`: `Vx := Vy << 1`; `VF` is the bit shifted out.
    ShiftLeft { x: u8, y: u8 },
    /// `9xy0`: skip the next instruction if `Vx != Vy`.
    SkipNotEqual { x: u8, y: u8 },
    /// `Annn`: `I := nnn`.
    LoadIndex { nnn: u16 },
    /// `Bnnn`: jump to `nnn + V0`.
    JumpOffset { nnn: u16 },
    /// `Cxkk`: `Vx := random byte & kk`.
    Random { x: u8, kk: u8 },
    /// `Dxyn`: draw the `n`-byte sprite at `I` at `(Vx, Vy)`; `VF` is the
    /// collision flag.
    Draw { x: u8, y: u8, n: u8 },
    /// `Ex9E`: skip the next instruction if key `Vx` is down.
    SkipKeyDown { x: u8 },
    /// `ExA1`: skip the next instruction if key `Vx` is up.
    SkipKeyUp { x: u8 },
    /// `Fx07`: `Vx := delay`.
    ReadDelay { x: u8 },
    /// `Fx0A`: wait for a key, then `Vx := key`.
    WaitKey { x: u8 },
    /// `Fx15`: `delay := Vx`.
    SetDelay { x: u8 },
    /// `Fx18`: `sound := Vx`.
    SetSound { x: u8 },
    /// `Fx1E`: `I := I + Vx`.
    AddIndex { x: u8 },
    /// `Fx29`: `I :=` address of the glyph for the hex digit `Vx`.
    LoadGlyph { x: u8 },
    /// `Fx33`: store the decimal digits of `Vx` at `I`, `I + 1`, `I + 2`.
    StoreDecimal { x: u8 },
    /// `Fx55`: store the registers below `Vx` at `I`.
    StoreRegisters { x: u8 },
    /// `Fx65`: load the registers below `Vx` from `I`.
    LoadRegisters { x: u8 },
    /// Any other opcode.
    Unknown,
}

/// Nibble `k` of `code`, counted from the most significant one (`k` in 0..4).
pub open spec fn nibble(code: u16, k: int) -> int {
    if k == 0 {
        code as int / 0x1000
    } else if k == 1 {
        (code as int / 0x100) % 0x10
    } else if k == 2 {
        (code as int / 0x10) % 0x10
    } else {
        code as int % 0x10
    }
}

/// The low 12 bits of `code`.
pub open spec fn operand_nnn(code: u16) -> u16 {
    (code as int % 0x1000) as u16
}

/// The low 8 bits of `code`.
pub open spec fn operand_kk(code: u16) -> u8 {
    (code as int % 0x100) as u8
}

/// The second nibble of `code`.
pub open spec fn operand_x(code: u16) -> u8 {
    nibble(code, 1) as u8
}

/// The third nibble of `code`.
pub open spec fn operand_y(code: u16) -> u8 {
    nibble(code, 2) as u8
}

/// The last nibble of `code`.
pub open spec fn operand_n(code: u16) -> u8 {
    nibble(code, 3) as u8
}

/// The instruction of the `8xy_` family with last nibble `op`.
pub open spec fn spec_decode_arithmetic(op: int, x: u8, y: u8) -> Instruction {
    if op == 0x0 {
        Instruction::Move { x, y }
    } else if op == 0x1 {
        Instruction::Or { x, y }
    } else if op == 0x2 {
        Instruction::And { x, y }
    } else if op == 0x3 {
        Instruction::Xor { x, y }
    } else if op == 0x4 {
        Instruction::Add { x, y }
    } else if op == 0x5 {
        Instruction::Subtract { x, y }
    } else if op == 0x6 {
        Instruction::ShiftRight { x, y }
    } else if op == 0x7 {
        Instruction::SubtractFrom { x, y }
    } else if op == 0xE {
        Instruction::ShiftLeft { x, y }
    } else {
        Instruction::Unknown
    }
}

/// The instruction of the `Fx__` family with low byte `kk`.
pub open spec fn spec_decode_misc(kk: u8, x: u8) -> Instruction {
    if kk == 0x07 {
        Instruction::ReadDelay { x }
    } else if kk == 0x0A {
        Instruction::WaitKey { x }
    } else if kk == 0x15 {
        Instruction::SetDelay { x }
    } else if kk == 0x18 {
        Instruction::SetSound { x }
    } else if kk == 0x1E {
        Instruction::AddIndex { x }
    } else if kk == 0x29 {
        Instruction::LoadGlyph { x }
    } else if kk == 0x33 {
        Instruction::StoreDecimal { x }
    } else if kk == 0x55 {
        Instruction::StoreRegisters { x }
    } else if kk == 0x65 {
        Instruction::LoadRegisters { x }
    } else {
        Instruction::Unknown
    }
}

/// The instruction that `code` stands for.
pub open spec fn spec_decode(code: u16) -> Instruction {
    let op = nibble(code, 0);
    let last = nibble(code, 3);
    let nnn = operand_nnn(code);
    let kk = operand_kk(code);
    let x = operand_x(code);
    let y = operand_y(code);
    if op == 0x0 {
        if code == 0x00E0 {
            Instruction::ClearScreen
        } else if code == 0x00EE {
            Instruction::Return
        } else {
            Instruction::MachineRoutine { nnn }
        }
    } else if op == 0x1 {
        Instruction::Jump { nnn }
    } else if op == 0x2 {
        Instruction::Call { nnn }
    } else if op == 0x3 {
        Instruction::SkipEqualByte { x, kk }
    } else if op == 0x4 {
        Instruction::SkipNotEqualByte { x, kk }
    } else if op == 0x5 {
        if last == 0 {
            Instruction::SkipEqual { x, y }
        } else {
            Instruction::Unknown
        }
    } else if op == 0x6 {
        Instruction::LoadByte { x, kk }
    } else if op == 0x7 {
        Instruction::AddByte { x, kk }
    } else if op == 0x8 {
        spec_decode_arithmetic(last, x, y)
    } else if op == 0x9 {
        if last == 0 {
            Instruction::SkipNotEqual { x, y }
        } else {
            Instruction::Unknown
        }
    } else if op == 0xA {
        Instruction::LoadIndex { nnn }
    } else if op == 0xB {
        Instruction::JumpOffset { nnn }
    } else if op == 0xC {
        Instruction::Random { x, kk }
    } else if op == 0xD {
        Instruction::Draw { x, y, n: operand_n(code) }
    } else if op == 0xE {
        if kk == 0x9E {
            Instruction::SkipKeyDown { x }
        } else if kk == 0xA1 {
            Instruction::SkipKeyUp { x }
        } else {
            Instruction::Unknown
        }
    } else {
        spec_decode_misc(kk, x)
    }
}

impl Instruction {
    /// Every operand is within the width of its field in the opcode: register
    /// numbers and counts below 16, addresses below 4096.
    pub open spec fn well_formed(self) -> bool {
        match self {
            Instruction::ClearScreen | Instruction::Return | Instruction::Unknown => true,
            Instruction::MachineRoutine { nnn }
            | Instruction::Jump { nnn }
            | Instruction::Call { nnn }
            | Instruction::LoadIndex { nnn }
            | Instruction::JumpOffset { nnn } => nnn < 0x1000,
            Instruction::SkipEqualByte { x, kk }
            | Instruction::SkipNotEqualByte { x, kk }
            | Instruction::LoadByte { x, kk }
            | Instruction::AddByte { x, kk }
            | Instruction::Random { x, kk } => x < 16,
            Instruction::SkipEqual { x, y }
            | Instruction::Move { x, y }
            | Instruction::Or { x, y }
            | Instruction::And { x, y }
            | Instruction::Xor { x, y }
            | Instruction::Add { x, y }
            | Instruction::Subtract { x, y }
            | Instruction::ShiftRight { x, y }
            | Instruction::SubtractFrom { x, y }
            | Instruction::ShiftLeft { x, y }
            | Instruction::SkipNotEqual { x, y } => x < 16 && y < 16,
            Instruction::Draw { x, y, n } => x < 16 && y < 16 && n < 16,
            Instruction::SkipKeyDown { x }
            | Instruction::SkipKeyUp { x }
            | Instruction::ReadDelay { x }
            | Instruction::WaitKey { x }
            | Instruction::SetDelay { x }
            | Instruction::SetSound { x }
            | Instruction::AddIndex { x }
            | Instruction::LoadGlyph { x }
            | Instruction::StoreDecimal { x }
            | Instruction::StoreRegisters { x }
            | Instruction::LoadRegisters { x } => x < 16,
        }
    }
}

/// The opcode written with the four nibbles `a`, `b`, `c`, `d`.
pub open spec fn opcode(a: int, b: int, c: int, d: int) -> u16 {
    (a * 0x1000 + b * 0x100 + c * 0x10 + d) as u16
}

/// An opcode written with four nibbles has those nibbles, and its operands
/// `nnn` and `kk` are its last three and its last two.
pub proof fn lemma_opcode_parts(a: int, b: int, c: int, d: int)
    requires
        0 <= a < 16,
        0 <= b < 16,
        0 <= c < 16,
        0 <= d < 16,
    ensures
        nibble(opcode(a, b, c, d), 0) == a,
        nibble(opcode(a, b, c, d), 1) == b,
        nibble(opcode(a, b, c, d), 2) == c,
        nibble(opcode(a, b, c, d), 3) == d,
        operand_nnn(opcode(a, b, c, d)) == b * 0x100 + c * 0x10 + d,
        operand_kk(opcode(a, b, c, d)) == c * 0x10 + d,
        operand_x(opcode(a, b, c, d)) == b,
        operand_y(opcode(a, b, c, d)) == c,
        operand_n(opcode(a, b, c, d)) == d,
{
    let code = a * 0x1000 + b * 0x100 + c * 0x10 + d;
    assert(0 <= code <= 0xFFFF);
    assert(code / 0x1000 == a);
    assert(code / 0x100 == a * 0x10 + b);
    assert(code / 0x10 == a * 0x100 + b * 0x10 + c);
    assert(code % 0x10 == d);
    assert(code % 0x100 == c * 0x10 + d);
    assert(code % 0x1000 == b * 0x100 + c * 0x10 + d);
    assert((a * 0x10 + b) % 0x10 == b);
    assert((a * 0x100 + b * 0x10 + c) % 0x10 == c);
}

/// What `decode` returns has every operand within its field's width.
pub proof fn lemma_decode_well_formed(code: u16)
    ensures
        spec_decode(code).well_formed(),
{
}

/// Splits `code` into its nibbles and operands and picks the instruction.
#[verifier::when_used_as_spec(spec_decode)]
pub fn decode(code: u16) -> (instruction: Instruction)
    ensures
        instruction == spec_decode(code),
        instruction.well_formed(),
{
    let op1: u16 = (code & 0xF000) >> 12;
    let op2: u16 = (code & 0x0F00) >> 8;
    let op3: u16 = (code & 0x00F0) >> 4;
    let op4: u16 = code & 0x000F;
    let nnn: u16 = code & 0x0FFF;
    let low: u16 = code & 0x00FF;
    proof {
        assert((code & 0xF000) >> 12 == code / 0x1000) by (bit_vector);
        assert((code & 0x0F00) >> 8 == (code / 0x100) % 0x10) by (bit_vector);
        assert((code & 0x00F0) >> 4 == (code / 0x10) % 0x10) by (bit_vector);
        assert(code & 0x000F == code % 0x10) by (bit_vector);
        assert(code & 0x0FFF == code % 0x1000) by (bit_vector);
        assert(code & 0x00FF == code % 0x100) by (bit_vector);
    }
    let kk: u8 = low as u8;
    let x: u8 = op2 as u8;
    let y: u8 = op3 as u8;
    let n: u8 = op4 as u8;
    match (op1, op2, op3, op4) {
        (0x0, 0x0, 0xE, 0x0) => Instruction::ClearScreen,
        (0x0, 0x0, 0xE, 0xE) => Instruction::Return,
        (0x0, _, _, _) => Instruction::MachineRoutine { nnn },
        (0x1, _, _, _) => Instruction::Jump { nnn },
        (0x2, _, _, _) => Instruction::Call { nnn },
        (0x3, _, _, _) => Instruction::SkipEqualByte { x, kk },
        (0x4, _, _, _) => Instruction::SkipNotEqualByte { x, kk },
        (0x5, _, _, 0x0) => Instruction::SkipEqual { x, y },
        (0x6, _, _, _) => Instruction::LoadByte { x, kk },
        (0x7, _, _, _) => Instruction::AddByte { x, kk },
        (0x8, _, _, 0x0) => Instruction::Move { x, y },
        (0x8, _, _, 0x1) => Instruction::Or { x, y },
        (0x8, _, _, 0x2) => Instruction::And { x, y },
        (0x8, _, _, 0x3) => Instruction::Xor { x, y },
        (0x8, _, _, 0x4) => Instruction::Add { x, y },
        (0x8, _, _, 0x5) => Instruction::Subtract { x, y },
        (0x8, _, _, 0x6) => Instruction::ShiftRight { x, y },
        (0x8, _, _, 0x7) => Instruction::SubtractFrom { x, y },
        (0x8, _, _, 0xE) => Instruction::ShiftLeft { x, y },
        (0x9, _, _, 0x0) => Instruction::SkipNotEqual { x, y },
        (0xA, _, _, _) => Instruction::LoadIndex { nnn },
        (0xB, _, _, _) => Instruction::JumpOffset { nnn },
        (0xC, _, _, _) => Instruction::Random { x, kk },
        (0xD, _, _, _) => Instruction::Draw { x, y, n },
        (0xE, _, 0x9, 0xE) => Instruction::SkipKeyDown { x },
        (0xE, _, 0xA, 0x1) => Instruction::SkipKeyUp { x },
        (0xF, _, 0x0, 0x7) => Instruction::ReadDelay { x },
        (0xF, _, 0x0, 0xA) => Instruction::WaitKey { x },
        (0xF, _, 0x1, 0x5) => Instruction::SetDelay { x },
        (0xF, _, 0x1, 0x8) => Instruction::SetSound { x },
        (0xF, _, 0x1, 0xE) => Instruction::AddIndex { x },
        (0xF, _, 0x2, 0x9) => Instruction::LoadGlyph { x },
        (0xF, _, 0x3, 0x3) => Instruction::StoreDecimal { x },
        (0xF, _, 0x5, 0x5) => Instruction::StoreRegisters { x },
        (0xF, _, 0x6, 0x5) => Instruction::LoadRegisters { x },
        _ => Instruction::Unknown,
    }
}

} // verus!
