//! Decoding 16-bit opcode words into the 35 instruction variants.

use vstd::prelude::*;

verus! {

/// The closed set of machine instructions, one variant per entry of the
/// canonical 35-opcode table. Register operands are the 4-bit nibbles of
/// the opcode word, addresses its low 12 bits, immediates its low byte.
#[derive(Debug, Clone, Copy, PartialEq, Eq, Structural)]
pub enum Instruction {
    /// `0nnn`: jump into the machine routine area, treated as a plain jump.
    Sys(u16),
    /// `00E0`: clear the display.
    Cls,
    /// `00EE`: return from a subroutine.
    Ret,
    /// `1nnn`: jump to the address.
    Jump(u16),
    /// `2nnn`: call the subroutine at the address.
    Call(u16),
    /// `3xkk`: skip the next instruction if `Vx == kk`.
    SkipEqImm(u8, u8),
    /// `4xkk`: skip the next instruction if `Vx != kk`.
    SkipNeImm(u8, u8),
    /// `5xy0`: skip the next instruction if `Vx == Vy`.
    SkipEqReg(u8, u8),
    /// `6xkk`: load the immediate into `Vx`.
    LoadImm(u8, u8),
    /// `7xkk`: add the immediate to `Vx` modulo 256, flags untouched.
    AddImm(u8, u8),
    /// `8xy0`: copy `Vy` into `Vx`.
    Copy(u8, u8),
    /// `8xy1`: `Vx |= Vy`, then reset the flags register to 0.
    Or(u8, u8),
    /// `8xy2`: `Vx &= Vy`, then reset the flags register to 0.
    And(u8, u8),
    /// `8xy3`: `Vx ^= Vy`, then reset the flags register to 0.
    Xor(u8, u8),
    /// `8xy4`: `Vx += Vy` modulo 256, flags register 1 on carry else 0.
    AddCarry(u8, u8),
    /// `8xy5`: `Vx -= Vy` modulo 256, flags register 1 when no borrow.
    Sub(u8, u8),
    /// `8xy6`: shift `Vx` right once, flags register takes the shifted-out bit.
    ShiftRight(u8, u8),
    /// `8xy7`: `Vx = Vy - Vx` modulo 256, flags register 1 when no borrow.
    SubNeg(u8, u8),
    /// `8xyE`: shift `Vx` left once, flags register takes the shifted-out bit.
    ShiftLeft(u8, u8),
    /// `9xy0`: skip the next instruction if `Vx != Vy`.
    SkipNeReg(u8, u8),
    /// `Annn`: load the address into the index register.
    LoadIndex(u16),
    /// `Bnnn`: jump to the address plus `V0`.
    JumpOffset(u16),
    /// `Cxkk`: load one random byte ANDed with the immediate into `Vx`.
    Random(u8, u8),
    /// `Dxyn`: draw the `n`-row sprite at the index register at `(Vx, Vy)`.
    Draw(u8, u8, u8),
    /// `Ex9E`: skip the next instruction if the key `Vx` is down.
    SkipKeyDown(u8),
    /// `ExA1`: skip the next instruction if the key `Vx` is up.
    SkipKeyUp(u8),
    /// `Fx07`: load the delay timer into `Vx`.
    LoadDelay(u8),
    /// `Fx0A`: wait for a key press and store the key index in `Vx`.
    WaitKey(u8),
    /// `Fx15`: load `Vx` into the delay timer.
    SetDelay(u8),
    /// `Fx18`: load `Vx` into the sound timer.
    SetSound(u8),
    /// `Fx1E`: add `Vx` to the index register modulo 65536.
    AddIndex(u8),
    /// `Fx29`: load the font glyph address of digit `x` into the index.
    LoadFont(u8),
    /// `Fx33`: store the BCD digits of `Vx` at the index register.
    StoreBcd(u8),
    /// `Fx55`: store `V0..=Vx` into memory at the index register.
    StoreRegs(u8),
    /// `Fx65`: load `V0..=Vx` from memory at the index register.
    LoadRegs(u8),
}

/// The second nibble of the word, the `x` register operand.
pub open spec fn spec_op_x(word: u16) -> u8 {
    ((word >> 8) & 0x0F) as u8
}

/// The third nibble of the word, the `y` register operand.
pub open spec fn spec_op_y(word: u16) -> u8 {
    ((word >> 4) & 0x0F) as u8
}

/// The low byte of the word, the immediate operand.
pub open spec fn spec_op_kk(word: u16) -> u8 {
    (word & 0xFF) as u8
}

/// The low 12 bits of the word, the address operand.
pub open spec fn spec_op_nnn(word: u16) -> u16 {
    word & 0x0FFF
}

/// The low nibble of the word, the sprite-row-count operand.
pub open spec fn spec_op_n(word: u16) -> u8 {
    (word & 0x0F) as u8
}

/// The instruction a word decodes to, or `None` for a word that matches no
/// entry of the table.
pub open spec fn spec_decode(word: u16) -> Option<Instruction> {
    if word == 0x00E0 {
        Some(Instruction::Cls)
    } else if word == 0x00EE {
        Some(Instruction::Ret)
    } else if word & 0xF000 == 0x0000 {
        Some(Instruction::Sys(spec_op_nnn(word)))
    } else if word & 0xF000 == 0x1000 {
        Some(Instruction::Jump(spec_op_nnn(word)))
    } else if word & 0xF000 == 0x2000 {
        Some(Instruction::Call(spec_op_nnn(word)))
    } else if word & 0xF000 == 0x3000 {
        Some(Instruction::SkipEqImm(spec_op_x(word), spec_op_kk(word)))
    } else if word & 0xF000 == 0x4000 {
        Some(Instruction::SkipNeImm(spec_op_x(word), spec_op_kk(word)))
    } else if word & 0xF000 == 0x5000 {
        Some(Instruction::SkipEqReg(spec_op_x(word), spec_op_y(word)))
    } else if word & 0xF000 == 0x6000 {
        Some(Instruction::LoadImm(spec_op_x(word), spec_op_kk(word)))
    } else if word & 0xF000 == 0x7000 {
        Some(Instruction::AddImm(spec_op_x(word), spec_op_kk(word)))
    } else if word & 0xF00F == 0x8000 {
        Some(Instruction::Copy(spec_op_x(word), spec_op_y(word)))
    } else if word & 0xF00F == 0x8001 {
        Some(Instruction::Or(spec_op_x(word), spec_op_y(word)))
    } else if word & 0xF00F == 0x8002 {
        Some(Instruction::And(spec_op_x(word), spec_op_y(word)))
    } else if word & 0xF00F == 0x8003 {
        Some(Instruction::Xor(spec_op_x(word), spec_op_y(word)))
    } else if word & 0xF00F == 0x8004 {
        Some(Instruction::AddCarry(spec_op_x(word), spec_op_y(word)))
    } else if word & 0xF00F == 0x8005 {
        Some(Instruction::Sub(spec_op_x(word), spec_op_y(word)))
    } else if word & 0xF00F == 0x8006 {
        Some(Instruction::ShiftRight(spec_op_x(word), spec_op_y(word)))
    } else if word & 0xF00F == 0x8007 {
        Some(Instruction::SubNeg(spec_op_x(word), spec_op_y(word)))
    } else if word & 0xF00F == 0x800E {
        Some(Instruction::ShiftLeft(spec_op_x(word), spec_op_y(word)))
    } else if word & 0xF000 == 0x9000 {
        Some(Instruction::SkipNeReg(spec_op_x(word), spec_op_y(word)))
    } else if word & 0xF000 == 0xA000 {
        Some(Instruction::LoadIndex(spec_op_nnn(word)))
    } else if word & 0xF000 == 0xB000 {
        Some(Instruction::JumpOffset(spec_op_nnn(word)))
    } else if word & 0xF000 == 0xC000 {
        Some(Instruction::Random(spec_op_x(word), spec_op_kk(word)))
    } else if word & 0xF000 == 0xD000 {
        Some(Instruction::Draw(spec_op_x(word), spec_op_y(word), spec_op_n(word)))
    } else if word & 0xF0FF == 0xE09E {
        Some(Instruction::SkipKeyDown(spec_op_x(word)))
    } else if word & 0xF0FF == 0xE0A1 {
        Some(Instruction::SkipKeyUp(spec_op_x(word)))
    } else if word & 0xF0FF == 0xF007 {
        Some(Instruction::LoadDelay(spec_op_x(word)))
    } else if word & 0xF0FF == 0xF00A {
        Some(Instruction::WaitKey(spec_op_x(word)))
    } else if word & 0xF0FF == 0xF015 {
        Some(Instruction::SetDelay(spec_op_x(word)))
    } else if word & 0xF0FF == 0xF018 {
        Some(Instruction::SetSound(spec_op_x(word)))
    } else if word & 0xF0FF == 0xF01E {
        Some(Instruction::AddIndex(spec_op_x(word)))
    } else if word & 0xF0FF == 0xF029 {
        Some(Instruction::LoadFont(spec_op_x(word)))
    } else if word & 0xF0FF == 0xF033 {
        Some(Instruction::StoreBcd(spec_op_x(word)))
    } else if word & 0xF0FF == 0xF055 {
        Some(Instruction::StoreRegs(spec_op_x(word)))
    } else if word & 0xF0FF == 0xF065 {
        Some(Instruction::LoadRegs(spec_op_x(word)))
    } else {
        None
    }
}

/// Decodes an opcode word by mask and pattern against the instruction
/// table; a word that matches no entry yields `None`, which the executor
/// reports as `BadInstruction`.
pub fn decode(word: u16) -> (r: Option<Instruction>)
    ensures
        r == spec_decode(word),
{
    let x: u8 = ((word >> 8) & 0x0F) as u8;
    let y: u8 = ((word >> 4) & 0x0F) as u8;
    let kk: u8 = (word & 0xFF) as u8;
    let nnn: u16 = word & 0x0FFF;
    let n: u8 = (word & 0x0F) as u8;
    if word == 0x00E0 {
        Some(Instruction::Cls)
    } else if word == 0x00EE {
        Some(Instruction::Ret)
    } else if word & 0xF000 == 0x0000 {
        Some(Instruction::Sys(nnn))
    } else if word & 0xF000 == 0x1000 {
        Some(Instruction::Jump(nnn))
    } else if word & 0xF000 == 0x2000 {
        Some(Instruction::Call(nnn))
    } else if word & 0xF000 == 0x3000 {
        Some(Instruction::SkipEqImm(x, kk))
    } else if word & 0xF000 == 0x4000 {
        Some(Instruction::SkipNeImm(x, kk))
    } else if word & 0xF000 == 0x5000 {
        Some(Instruction::SkipEqReg(x, y))
    } else if word & 0xF000 == 0x6000 {
        Some(Instruction::LoadImm(x, kk))
    } else if word & 0xF000 == 0x7000 {
        Some(Instruction::AddImm(x, kk))
    } else if word & 0xF00F == 0x8000 {
        Some(Instruction::Copy(x, y))
    } else if word & 0xF00F == 0x8001 {
        Some(Instruction::Or(x, y))
    } else if word & 0xF00F == 0x8002 {
        Some(Instruction::And(x, y))
    } else if word & 0xF00F == 0x8003 {
        Some(Instruction::Xor(x, y))
    } else if word & 0xF00F == 0x8004 {
        Some(Instruction::AddCarry(x, y))
    } else if word & 0xF00F == 0x8005 {
        Some(Instruction::Sub(x, y))
    } else if word & 0xF00F == 0x8006 {
        Some(Instruction::ShiftRight(x, y))
    } else if word & 0xF00F == 0x8007 {
        Some(Instruction::SubNeg(x, y))
    } else if word & 0xF00F == 0x800E {
        Some(Instruction::ShiftLeft(x, y))
    } else if word & 0xF000 == 0x9000 {
        Some(Instruction::SkipNeReg(x, y))
    } else if word & 0xF000 == 0xA000 {
        Some(Instruction::LoadIndex(nnn))
    } else if word & 0xF000 == 0xB000 {
        Some(Instruction::JumpOffset(nnn))
    } else if word & 0xF000 == 0xC000 {
        Some(Instruction::Random(x, kk))
    } else if word & 0xF000 == 0xD000 {
        Some(Instruction::Draw(x, y, n))
    } else if word & 0xF0FF == 0xE09E {
        Some(Instruction::SkipKeyDown(x))
    } else if word & 0xF0FF == 0xE0A1 {
        Some(Instruction::SkipKeyUp(x))
    } else if word & 0xF0FF == 0xF007 {
        Some(Instruction::LoadDelay(x))
    } else if word & 0xF0FF == 0xF00A {
        Some(Instruction::WaitKey(x))
    } else if word & 0xF0FF == 0xF015 {
        Some(Instruction::SetDelay(x))
    } else if word & 0xF0FF == 0xF018 {
        Some(Instruction::SetSound(x))
    } else if word & 0xF0FF == 0xF01E {
        Some(Instruction::AddIndex(x))
    } else if word & 0xF0FF == 0xF029 {
        Some(Instruction::LoadFont(x))
    } else if word & 0xF0FF == 0xF033 {
        Some(Instruction::StoreBcd(x))
    } else if word & 0xF0FF == 0xF055 {
        Some(Instruction::StoreRegs(x))
    } else if word & 0xF0FF == 0xF065 {
        Some(Instruction::LoadRegs(x))
    } else {
        None
    }
}

/// The register operands of a decoded instruction are 4-bit nibbles, and
/// the address operands fit in 12 bits.
pub proof fn lemma_decode_operands_in_range(word: u16)
    ensures
        spec_op_x(word) < 16,
        spec_op_y(word) < 16,
        spec_op_n(word) < 16,
        spec_op_nnn(word) <= 0x0FFF,
{
    assert((((word >> 8) & 0x0F) as u8) < 16 && (((word >> 4) & 0x0F) as u8) < 16 && ((word
        & 0x0F) as u8) < 16 && word & 0x0FFF <= 0x0FFF) by (bit_vector);
}

} // verus!
