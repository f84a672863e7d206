use vstd::prelude::*;

use crate::error::EmulatorError;

verus! {

/// Where an instruction takes a value from, or puts one.
#[derive(Clone, Copy, Debug, PartialEq, Eq, Structural)]
pub enum Operand {
    /// One of the sixteen general-purpose registers, by index.
    Reg(usize),
    /// An immediate value taken from the opcode.
    Literal(u16),
    /// The keypad.
    Key,
    /// The index register.
    IReg,
}

/// A decoded instruction: the operation and its operands.
#[derive(Clone, Copy, Debug, PartialEq, Eq, Structural)]
pub enum Instruction {
    ClearDisplay,
    DrawSprite(Operand, Operand, Operand),
    CallSubroutine(Operand),
    ReturnSubroutine,
    Jump(Operand),
    JumpRelative(Operand),
    SkipIfEqual(Operand, Operand),
    SkipIfNotEqual(Operand, Operand),
    Add(Operand, Operand, Operand),
    Subtract(Operand, Operand, Operand),
    BitwiseAnd(Operand, Operand, Operand),
    BitwiseOr(Operand, Operand, Operand),
    BitwiseXor(Operand, Operand, Operand),
    ShiftLeft(Operand),
    ShiftRight(Operand),
    Random(Operand, Operand),
    ReadDelayTimer(Operand),
    WaitForKey(Operand),
    WriteDelayTimer(Operand),
    WriteSoundTimer(Operand),
    GetSpriteAddress(Operand),
    StoreBCD(Operand),
    DumpRegisters(Operand),
    LoadRegisters(Operand),
}

/// The top four bits of an opcode, which select the instruction family.
pub open spec fn family(opcode: u16) -> u16 {
    opcode / 0x1000
}

/// Bits 8 to 11 of an opcode: the first register index.
pub open spec fn field_x(opcode: u16) -> usize {
    ((opcode / 0x100) % 0x10) as usize
}

/// Bits 4 to 7 of an opcode: the second register index.
pub open spec fn field_y(opcode: u16) -> usize {
    ((opcode / 0x10) % 0x10) as usize
}

/// Bits 0 to 3 of an opcode: the 4-bit literal.
pub open spec fn field_n(opcode: u16) -> u16 {
    opcode % 0x10
}

/// Bits 0 to 7 of an opcode: the 8-bit literal.
pub open spec fn field_nn(opcode: u16) -> u16 {
    opcode % 0x100
}

/// Bits 0 to 11 of an opcode: the 12-bit literal.
pub open spec fn field_nnn(opcode: u16) -> u16 {
    opcode % 0x1000
}

/// The arithmetic and logic family, selected by the low four bits.
pub open spec fn decode_alu(opcode: u16) -> Result<Instruction, EmulatorError> {
    let vx = Operand::Reg(field_x(opcode));
    let vy = Operand::Reg(field_y(opcode));
    let sub = field_n(opcode);
    if sub == 0x0 {
        Ok(Instruction::Add(vx, vy, Operand::Literal(0)))
    } else if sub == 0x1 {
        Ok(Instruction::BitwiseOr(vx, vx, vy))
    } else if sub == 0x2 {
        Ok(Instruction::BitwiseAnd(vx, vx, vy))
    } else if sub == 0x3 {
        Ok(Instruction::BitwiseXor(vx, vx, vy))
    } else if sub == 0x4 {
        Ok(Instruction::Add(vx, vx, vy))
    } else if sub == 0x5 {
        Ok(Instruction::Subtract(vx, vx, vy))
    } else if sub == 0x6 {
        Ok(Instruction::ShiftRight(vx))
    } else if sub == 0x7 {
        Ok(Instruction::Subtract(vx, vy, vx))
    } else if sub == 0xE {
        Ok(Instruction::ShiftLeft(vx))
    } else {
        Err(EmulatorError::Decode(opcode))
    }
}

/// The keypad family, selected by the low byte.
pub open spec fn decode_keypad(opcode: u16) -> Result<Instruction, EmulatorError> {
    let vx = Operand::Reg(field_x(opcode));
    let sub = field_nn(opcode);
    if sub == 0x9E {
        Ok(Instruction::SkipIfEqual(Operand::Key, vx))
    } else if sub == 0xA1 {
        Ok(Instruction::SkipIfNotEqual(Operand::Key, vx))
    } else {
        Err(EmulatorError::Decode(opcode))
    }
}

/// The timer, index and memory family, selected by the low byte.
pub open spec fn decode_misc(opcode: u16) -> Result<Instruction, EmulatorError> {
    let vx = Operand::Reg(field_x(opcode));
    let sub = field_nn(opcode);
    if sub == 0x07 {
        Ok(Instruction::ReadDelayTimer(vx))
    } else if sub == 0x0A {
        Ok(Instruction::WaitForKey(vx))
    } else if sub == 0x15 {
        Ok(Instruction::WriteDelayTimer(vx))
    } else if sub == 0x18 {
        Ok(Instruction::WriteSoundTimer(vx))
    } else if sub == 0x1E {
        Ok(Instruction::Add(Operand::IReg, Operand::IReg, vx))
    } else if sub == 0x29 {
        Ok(Instruction::GetSpriteAddress(vx))
    } else if sub == 0x33 {
        Ok(Instruction::StoreBCD(vx))
    } else if sub == 0x55 {
        Ok(Instruction::DumpRegisters(vx))
    } else if sub == 0x65 {
        Ok(Instruction::LoadRegisters(vx))
    } else {
        Err(EmulatorError::Decode(opcode))
    }
}

/// The instruction that an opcode stands for, or the decode error that names
/// the opcode when it matches no pattern.
pub open spec fn decode_spec(opcode: u16) -> Result<Instruction, EmulatorError> {
    let vx = Operand::Reg(field_x(opcode));
    let vy = Operand::Reg(field_y(opcode));
    let n = Operand::Literal(field_n(opcode));
    let nn = Operand::Literal(field_nn(opcode));
    let nnn = Operand::Literal(field_nnn(opcode));
    let fam = family(opcode);
    if fam == 0x0 {
        if field_nnn(opcode) == 0x0E0 {
            Ok(Instruction::ClearDisplay)
        } else if field_nnn(opcode) == 0x0EE {
            Ok(Instruction::ReturnSubroutine)
        } else {
            Err(EmulatorError::Decode(opcode))
        }
    } else if fam == 0x1 {
        Ok(Instruction::Jump(nnn))
    } else if fam == 0x2 {
        Ok(Instruction::CallSubroutine(nnn))
    } else if fam == 0x3 {
        Ok(Instruction::SkipIfEqual(vx, nn))
    } else if fam == 0x4 {
        Ok(Instruction::SkipIfNotEqual(vx, nn))
    } else if fam == 0x5 {
        Ok(Instruction::SkipIfEqual(vx, vy))
    } else if fam == 0x6 {
        Ok(Instruction::Add(vx, nn, Operand::Literal(0)))
    } else if fam == 0x7 {
        Ok(Instruction::Add(vx, vx, nn))
    } else if fam == 0x8 {
        decode_alu(opcode)
    } else if fam == 0x9 {
        Ok(Instruction::SkipIfNotEqual(vx, vy))
    } else if fam == 0xA {
        Ok(Instruction::Add(Operand::IReg, nnn, Operand::Literal(0)))
    } else if fam == 0xB {
        Ok(Instruction::JumpRelative(nnn))
    } else if fam == 0xC {
        Ok(Instruction::Random(vx, nn))
    } else if fam == 0xD {
        Ok(Instruction::DrawSprite(vx, vy, n))
    } else if fam == 0xE {
        decode_keypad(opcode)
    } else {
        decode_misc(opcode)
    }
}

/// Masking and shifting an opcode yields the same fields as dividing it.
proof fn lemma_fields(opcode: u16)
    by (bit_vector)
    ensures
        (opcode & 0xF000) >> 12 == opcode / 0x1000,
        (opcode & 0x0F00) >> 8 == (opcode / 0x100) % 0x10,
        (opcode & 0x00F0) >> 4 == (opcode / 0x10) % 0x10,
        opcode & 0x000F == opcode % 0x10,
        opcode & 0x00FF == opcode % 0x100,
        opcode & 0x0FFF == opcode % 0x1000,
{
}

/// Decodes a 16-bit opcode into an instruction.
///
/// The family comes from the top four bits; the arithmetic family then
/// dispatches on the low four bits, the keypad and miscellaneous families on
/// the low byte. An opcode that matches no pattern is reported by value.
pub fn decode(opcode: u16) -> (res: Result<Instruction, EmulatorError>)
    ensures
        res == decode_spec(opcode),
{
    proof {
        lemma_fields(opcode);
    }
    let vx = Operand::Reg(((opcode & 0x0F00) >> 8) as usize);
    let vy = Operand::Reg(((opcode & 0x00F0) >> 4) as usize);
    let n = Operand::Literal(opcode & 0x000F);
    let nn = Operand::Literal(opcode & 0x00FF);
    let nnn = Operand::Literal(opcode & 0x0FFF);
    let zero = Operand::Literal(0);
    match (opcode & 0xF000) >> 12 {
        0x0 => match opcode & 0x0FFF {
            0x0E0 => Ok(Instruction::ClearDisplay),
            0x0EE => Ok(Instruction::ReturnSubroutine),
            _ => Err(EmulatorError::Decode(opcode)),
        },
        0x1 => Ok(Instruction::Jump(nnn)),
        0x2 => Ok(Instruction::CallSubroutine(nnn)),
        0x3 => Ok(Instruction::SkipIfEqual(vx, nn)),
        0x4 => Ok(Instruction::SkipIfNotEqual(vx, nn)),
        0x5 => Ok(Instruction::SkipIfEqual(vx, vy)),
        0x6 => Ok(Instruction::Add(vx, nn, zero)),
        0x7 => Ok(Instruction::Add(vx, vx, nn)),
        0x8 => match opcode & 0x000F {
            0x0 => Ok(Instruction::Add(vx, vy, zero)),
            0x1 => Ok(Instruction::BitwiseOr(vx, vx, vy)),
            0x2 => Ok(Instruction::BitwiseAnd(vx, vx, vy)),
            0x3 => Ok(Instruction::BitwiseXor(vx, vx, vy)),
            0x4 => Ok(Instruction::Add(vx, vx, vy)),
            0x5 => Ok(Instruction::Subtract(vx, vx, vy)),
            0x6 => Ok(Instruction::ShiftRight(vx)),
            0x7 => Ok(Instruction::Subtract(vx, vy, vx)),
            0xE => Ok(Instruction::ShiftLeft(vx)),
            _ => Err(EmulatorError::Decode(opcode)),
        },
        0x9 => Ok(Instruction::SkipIfNotEqual(vx, vy)),
        0xA => Ok(Instruction::Add(Operand::IReg, nnn, zero)),
        0xB => Ok(Instruction::JumpRelative(nnn)),
        0xC => Ok(Instruction::Random(vx, nn)),
        0xD => Ok(Instruction::DrawSprite(vx, vy, n)),
        0xE => match opcode & 0x00FF {
            0x9E => Ok(Instruction::SkipIfEqual(Operand::Key, vx)),
            0xA1 => Ok(Instruction::SkipIfNotEqual(Operand::Key, vx)),
            _ => Err(EmulatorError::Decode(opcode)),
        },
        _ => match opcode & 0x00FF {
            0x07 => Ok(Instruction::ReadDelayTimer(vx)),
            0x0A => Ok(Instruction::WaitForKey(vx)),
            0x15 => Ok(Instruction::WriteDelayTimer(vx)),
            0x18 => Ok(Instruction::WriteSoundTimer(vx)),
            0x1E => Ok(Instruction::Add(Operand::IReg, Operand::IReg, vx)),
            0x29 => Ok(Instruction::GetSpriteAddress(vx)),
            0x33 => Ok(Instruction::StoreBCD(vx)),
            0x55 => Ok(Instruction::DumpRegisters(vx)),
            0x65 => Ok(Instruction::LoadRegisters(vx)),
            _ => Err(EmulatorError::Decode(opcode)),
        },
    }
}

} // verus!
