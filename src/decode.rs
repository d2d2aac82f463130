use vstd::prelude::*;

use crate::error::EmuError;

verus! {

/// High nibble of an opcode.
pub open spec fn nib1(op: u16) -> int {
    op as int / 4096
}

/// Second nibble of an opcode (the `X` register operand).
pub open spec fn nib2(op: u16) -> int {
    (op as int / 256) % 16
}

/// Third nibble of an opcode (the `Y` register operand).
pub open spec fn nib3(op: u16) -> int {
    (op as int / 16) % 16
}

/// Low nibble of an opcode.
pub open spec fn nib4(op: u16) -> int {
    op as int % 16
}

/// Low byte of an opcode (`NN`).
pub open spec fn low_byte(op: u16) -> u8 {
    (op as int % 256) as u8
}

/// Low twelve bits of an opcode (`NNN`).
pub open spec fn low_addr(op: u16) -> u16 {
    (op as int % 4096) as u16
}

/// One decoded CHIP-8 instruction. Register operands `x`, `y` are below 16,
/// addresses are below 4096, and a sprite height `n` is below 16.
#[derive(Clone, Copy, Debug, PartialEq, Eq, Structural)]
pub enum Instr {
    Nop,
    ClearScreen,
    Return,
    Jump { addr: u16 },
    Call { addr: u16 },
    SkipEqImm { x: u8, nn: u8 },
    SkipNeImm { x: u8, nn: u8 },
    SkipEqReg { x: u8, y: u8 },
    SetImm { x: u8, nn: u8 },
    AddImm { x: u8, nn: u8 },
    Move { x: u8, y: u8 },
    Or { x: u8, y: u8 },
    And { x: u8, y: u8 },
    Xor { x: u8, y: u8 },
    AddReg { x: u8, y: u8 },
    SubReg { x: u8, y: u8 },
    ShiftRight { x: u8 },
    SubRev { x: u8, y: u8 },
    ShiftLeft { x: u8 },
    SkipNeReg { x: u8, y: u8 },
    SetIndex { addr: u16 },
    JumpOffset { addr: u16 },
    Random { x: u8, nn: u8 },
    Draw { x: u8, y: u8, n: u8 },
    SkipKey { x: u8 },
    SkipNoKey { x: u8 },
    GetDelay { x: u8 },
    WaitKey { x: u8 },
    SetDelay { x: u8 },
    SetSound { x: u8 },
    AddIndex { x: u8 },
    Font { x: u8 },
    Bcd { x: u8 },
    Store { x: u8 },
    Load { x: u8 },
}

/// The instruction that `op` encodes, or `UnknownOpcode` when no pattern
/// of the instruction set matches it.
pub open spec fn decode_spec(op: u16) -> Result<Instr, EmuError> {
    let (a, b, c, d) = (nib1(op), nib2(op), nib3(op), nib4(op));
    let x = b as u8;
    let y = c as u8;
    let nn = low_byte(op);
    let addr = low_addr(op);
    if op == 0x0000 {
        Ok(Instr::Nop)
    } else if op == 0x00E0 {
        Ok(Instr::ClearScreen)
    } else if op == 0x00EE {
        Ok(Instr::Return)
    } else if a == 1 {
        Ok(Instr::Jump { addr })
    } else if a == 2 {
        Ok(Instr::Call { addr })
    } else if a == 3 {
        Ok(Instr::SkipEqImm { x, nn })
    } else if a == 4 {
        Ok(Instr::SkipNeImm { x, nn })
    } else if a == 5 && d == 0 {
        Ok(Instr::SkipEqReg { x, y })
    } else if a == 6 {
        Ok(Instr::SetImm { x, nn })
    } else if a == 7 {
        Ok(Instr::AddImm { x, nn })
    } else if a == 8 && d == 0 {
        Ok(Instr::Move { x, y })
    } else if a == 8 && d == 1 {
        Ok(Instr::Or { x, y })
    } else if a == 8 && d == 2 {
        Ok(Instr::And { x, y })
    } else if a == 8 && d == 3 {
        Ok(Instr::Xor { x, y })
    } else if a == 8 && d == 4 {
        Ok(Instr::AddReg { x, y })
    } else if a == 8 && d == 5 {
        Ok(Instr::SubReg { x, y })
    } else if a == 8 && d == 6 {
        Ok(Instr::ShiftRight { x })
    } else if a == 8 && d == 7 {
        Ok(Instr::SubRev { x, y })
    } else if a == 8 && d == 0xE {
        Ok(Instr::ShiftLeft { x })
    } else if a == 9 && d == 0 {
        Ok(Instr::SkipNeReg { x, y })
    } else if a == 0xA {
        Ok(Instr::SetIndex { addr })
    } else if a == 0xB {
        Ok(Instr::JumpOffset { addr })
    } else if a == 0xC {
        Ok(Instr::Random { x, nn })
    } else if a == 0xD {
        Ok(Instr::Draw { x, y, n: d as u8 })
    } else if a == 0xE && nn == 0x9E {
        Ok(Instr::SkipKey { x })
    } else if a == 0xE && nn == 0xA1 {
        Ok(Instr::SkipNoKey { x })
    } else if a == 0xF && nn == 0x07 {
        Ok(Instr::GetDelay { x })
    } else if a == 0xF && nn == 0x0A {
        Ok(Instr::WaitKey { x })
    } else if a == 0xF && nn == 0x15 {
        Ok(Instr::SetDelay { x })
    } else if a == 0xF && nn == 0x18 {
        Ok(Instr::SetSound { x })
    } else if a == 0xF && nn == 0x1E {
        Ok(Instr::AddIndex { x })
    } else if a == 0xF && nn == 0x29 {
        Ok(Instr::Font { x })
    } else if a == 0xF && nn == 0x33 {
        Ok(Instr::Bcd { x })
    } else if a == 0xF && nn == 0x55 {
        Ok(Instr::Store { x })
    } else if a == 0xF && nn == 0x65 {
        Ok(Instr::Load { x })
    } else {
        Err(EmuError::UnknownOpcode { op })
    }
}

/// Operands of a decoded instruction lie in their ranges.
pub open spec fn operands_in_range(ins: Instr) -> bool {
    match ins {
        Instr::Jump { addr } | Instr::Call { addr } | Instr::SetIndex { addr }
        | Instr::JumpOffset { addr } => addr < 4096,
        Instr::SkipEqImm { x, .. } | Instr::SkipNeImm { x, .. } | Instr::SetImm { x, .. }
        | Instr::AddImm { x, .. } | Instr::Random { x, .. } | Instr::ShiftRight { x }
        | Instr::ShiftLeft { x } | Instr::SkipKey { x } | Instr::SkipNoKey { x }
        | Instr::GetDelay { x } | Instr::WaitKey { x } | Instr::SetDelay { x }
        | Instr::SetSound { x } | Instr::AddIndex { x } | Instr::Font { x }
        | Instr::Bcd { x } | Instr::Store { x } | Instr::Load { x } => x < 16,
        Instr::SkipEqReg { x, y } | Instr::Move { x, y } | Instr::Or { x, y }
        | Instr::And { x, y } | Instr::Xor { x, y } | Instr::AddReg { x, y }
        | Instr::SubReg { x, y } | Instr::SubRev { x, y }
        | Instr::SkipNeReg { x, y } => x < 16 && y < 16,
        Instr::Draw { x, y, n } => x < 16 && y < 16 && n < 16,
        _ => true,
    }
}

/// Splits a 16-bit opcode into its instruction.
pub fn decode(op: u16) -> (r: Result<Instr, EmuError>)
    ensures
        r == decode_spec(op),
        r matches Ok(ins) ==> operands_in_range(ins),
{
    let a: u16 = op / 4096;
    let x: u8 = ((op / 256) % 16) as u8;
    let y: u8 = ((op / 16) % 16) as u8;
    let d: u16 = op % 16;
    let nn: u8 = (op % 256) as u8;
    let addr: u16 = op % 4096;
    if op == 0x0000 {
        Ok(Instr::Nop)
    } else if op == 0x00E0 {
        Ok(Instr::ClearScreen)
    } else if op == 0x00EE {
        Ok(Instr::Return)
    } else if a == 1 {
        Ok(Instr::Jump { addr })
    } else if a == 2 {
        Ok(Instr::Call { addr })
    } else if a == 3 {
        Ok(Instr::SkipEqImm { x, nn })
    } else if a == 4 {
        Ok(Instr::SkipNeImm { x, nn })
    } else if a == 5 && d == 0 {
        Ok(Instr::SkipEqReg { x, y })
    } else if a == 6 {
        Ok(Instr::SetImm { x, nn })
    } else if a == 7 {
        Ok(Instr::AddImm { x, nn })
    } else if a == 8 && d == 0 {
        Ok(Instr::Move { x, y })
    } else if a == 8 && d == 1 {
        Ok(Instr::Or { x, y })
    } else if a == 8 && d == 2 {
        Ok(Instr::And { x, y })
    } else if a == 8 && d == 3 {
        Ok(Instr::Xor { x, y })
    } else if a == 8 && d == 4 {
        Ok(Instr::AddReg { x, y })
    } else if a == 8 && d == 5 {
        Ok(Instr::SubReg { x, y })
    } else if a == 8 && d == 6 {
        Ok(Instr::ShiftRight { x })
    } else if a == 8 && d == 7 {
        Ok(Instr::SubRev { x, y })
    } else if a == 8 && d == 0xE {
        Ok(Instr::ShiftLeft { x })
    } else if a == 9 && d == 0 {
        Ok(Instr::SkipNeReg { x, y })
    } else if a == 0xA {
        Ok(Instr::SetIndex { addr })
    } else if a == 0xB {
        Ok(Instr::JumpOffset { addr })
    } else if a == 0xC {
        Ok(Instr::Random { x, nn })
    } else if a == 0xD {
        Ok(Instr::Draw { x, y, n: d as u8 })
    } else if a == 0xE && nn == 0x9E {
        Ok(Instr::SkipKey { x })
    } else if a == 0xE && nn == 0xA1 {
        Ok(Instr::SkipNoKey { x })
    } else if a == 0xF && nn == 0x07 {
        Ok(Instr::GetDelay { x })
    } else if a == 0xF && nn == 0x0A {
        Ok(Instr::WaitKey { x })
    } else if a == 0xF && nn == 0x15 {
        Ok(Instr::SetDelay { x })
    } else if a == 0xF && nn == 0x18 {
        Ok(Instr::SetSound { x })
    } else if a == 0xF && nn == 0x1E {
        Ok(Instr::AddIndex { x })
    } else if a == 0xF && nn == 0x29 {
        Ok(Instr::Font { x })
    } else if a == 0xF && nn == 0x33 {
        Ok(Instr::Bcd { x })
    } else if a == 0xF && nn == 0x55 {
        Ok(Instr::Store { x })
    } else if a == 0xF && nn == 0x65 {
        Ok(Instr::Load { x })
    } else {
        Err(EmuError::UnknownOpcode { op })
    }
}

} // verus!
