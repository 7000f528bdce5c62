use vstd::prelude::*;

use crate::error::Chip8Error;

verus! {

/// One decoded CHIP-8 instruction, one variant per instruction family,
/// carrying the operand fields extracted from the 16-bit word.
///
/// Naming follows the conventional opcode charts: `MMM` is a 12-bit
/// address, `X` and `Y` are 4-bit register indices, `KK` an 8-bit
/// immediate and `N` a 4-bit sprite height.
#[allow(non_camel_case_types)]
#[derive(Clone, Copy, Debug, PartialEq, Eq, Structural)]
pub enum Opcode {
    /// The literal zero word, executed as a no-op.
    OP_0000,
    /// Clear the screen.
    OP_00E0,
    /// Return from a subroutine.
    OP_00EE,
    /// Jump to the address.
    OP_1MMM(usize),
    /// Call the subroutine at the address.
    OP_2MMM(usize),
    /// Skip the next instruction if Vx equals the immediate.
    OP_3XKK(usize, u8),
    /// Skip the next instruction if Vx differs from the immediate.
    OP_4XKK(usize, u8),
    /// Skip the next instruction if Vx equals Vy.
    OP_5XY0(usize, usize),
    /// Set Vx to the immediate.
    OP_6XKK(usize, u8),
    /// Add the immediate to Vx, wrapping, without touching VF.
    OP_7XKK(usize, u8),
    /// Copy Vy into Vx.
    OP_8XY0(usize, usize),
    /// Vx |= Vy.
    OP_8XY1(usize, usize),
    /// Vx &= Vy.
    OP_8XY2(usize, usize),
    /// Vx ^= Vy.
    OP_8XY3(usize, usize),
    /// Vx += Vy with VF as the carry flag.
    OP_8XY4(usize, usize),
    /// Vx -= Vy with VF as the complemented borrow flag.
    OP_8XY5(usize, usize),
    /// Shift Vx right by one with VF as the bit shifted out.
    OP_8X16(usize),
    /// Vx = Vy - Vx with VF as the complemented borrow flag.
    OP_8XY7(usize, usize),
    /// Shift Vx left by one with VF as the bit shifted out.
    OP_8X1E(usize),
    /// Skip the next instruction if Vx differs from Vy.
    OP_9XY0(usize, usize),
    /// Set the index register to the address.
    OP_AMMM(usize),
    /// Jump to the address plus V0.
    OP_BMMM(usize),
    /// Set Vx to a random byte masked by the immediate.
    OP_CXKK(usize, u8),
    /// Draw the N-row sprite at memory\[I\] at coordinates (Vx, Vy).
    OP_DXYN(usize, usize, u8),
    /// Skip the next instruction if key Vx is down.
    OP_EX9E(usize),
    /// Skip the next instruction if key Vx is up.
    OP_EXA1(usize),
    /// Set Vx to the delay timer.
    OP_FX07(usize),
    /// Block until a key is pressed, storing its code in Vx.
    OP_FX0A(usize),
    /// Set the delay timer to Vx.
    OP_FX15(usize),
    /// Set the sound timer to Vx.
    OP_FX18(usize),
    /// Add Vx to the index register.
    OP_FX1E(usize),
    /// Point the index register at the font glyph for Vx's low nibble.
    OP_FX29(usize),
    /// Store the decimal digits of Vx at memory\[I..I+3\].
    OP_FX33(usize),
    /// Dump registers V0..=Vx to memory starting at I.
    OP_FX55(usize),
    /// Load registers V0..=Vx from memory starting at I.
    OP_FX65(usize),
}

/// The first register operand: bits 8..12 of the word.
pub open spec fn op_x(w: u16) -> usize {
    ((w >> 8) & 0xF) as usize
}

/// The second register operand: bits 4..8 of the word.
pub open spec fn op_y(w: u16) -> usize {
    ((w >> 4) & 0xF) as usize
}

/// The 8-bit immediate: bits 0..8 of the word.
pub open spec fn op_kk(w: u16) -> u8 {
    (w & 0xFF) as u8
}

/// The 12-bit address: bits 0..12 of the word.
pub open spec fn op_nnn(w: u16) -> usize {
    (w & 0xFFF) as usize
}

/// The sprite height nibble: bits 0..4 of the word.
pub open spec fn op_n(w: u16) -> u8 {
    (w & 0xF) as u8
}

impl Opcode {
    /// Every operand field lies in its architectural range: register
    /// indices below 16, addresses below 4096, sprite heights below 16.
    /// `decode` only ever returns valid opcodes.
    pub open spec fn valid(self) -> bool {
        match self {
            Opcode::OP_0000 => true,
            Opcode::OP_00E0 => true,
            Opcode::OP_00EE => true,
            Opcode::OP_1MMM(m) => m < 0x1000,
            Opcode::OP_2MMM(m) => m < 0x1000,
            Opcode::OP_3XKK(x, _) => x < 16,
            Opcode::OP_4XKK(x, _) => x < 16,
            Opcode::OP_5XY0(x, y) => x < 16 && y < 16,
            Opcode::OP_6XKK(x, _) => x < 16,
            Opcode::OP_7XKK(x, _) => x < 16,
            Opcode::OP_8XY0(x, y) => x < 16 && y < 16,
            Opcode::OP_8XY1(x, y) => x < 16 && y < 16,
            Opcode::OP_8XY2(x, y) => x < 16 && y < 16,
            Opcode::OP_8XY3(x, y) => x < 16 && y < 16,
            Opcode::OP_8XY4(x, y) => x < 16 && y < 16,
            Opcode::OP_8XY5(x, y) => x < 16 && y < 16,
            Opcode::OP_8X16(x) => x < 16,
            Opcode::OP_8XY7(x, y) => x < 16 && y < 16,
            Opcode::OP_8X1E(x) => x < 16,
            Opcode::OP_9XY0(x, y) => x < 16 && y < 16,
            Opcode::OP_AMMM(m) => m < 0x1000,
            Opcode::OP_BMMM(m) => m < 0x1000,
            Opcode::OP_CXKK(x, _) => x < 16,
            Opcode::OP_DXYN(x, y, n) => x < 16 && y < 16 && n < 16,
            Opcode::OP_EX9E(x) => x < 16,
            Opcode::OP_EXA1(x) => x < 16,
            Opcode::OP_FX07(x) => x < 16,
            Opcode::OP_FX0A(x) => x < 16,
            Opcode::OP_FX15(x) => x < 16,
            Opcode::OP_FX18(x) => x < 16,
            Opcode::OP_FX1E(x) => x < 16,
            Opcode::OP_FX29(x) => x < 16,
            Opcode::OP_FX33(x) => x < 16,
            Opcode::OP_FX55(x) => x < 16,
            Opcode::OP_FX65(x) => x < 16,
        }
    }
}

/// The full decode table: the opcode an instruction word denotes, or
/// the decode failure for a word outside every family.
pub open spec fn decode_spec(w: u16) -> Result<Opcode, Chip8Error> {
    let hi = w >> 12;
    if hi == 0x0 {
        if w == 0x0000 {
            Ok(Opcode::OP_0000)
        } else if w == 0x00E0 {
            Ok(Opcode::OP_00E0)
        } else if w == 0x00EE {
            Ok(Opcode::OP_00EE)
        } else {
            Err(Chip8Error::UnknownOpcode(w))
        }
    } else if hi == 0x1 {
        Ok(Opcode::OP_1MMM(op_nnn(w)))
    } else if hi == 0x2 {
        Ok(Opcode::OP_2MMM(op_nnn(w)))
    } else if hi == 0x3 {
        Ok(Opcode::OP_3XKK(op_x(w), op_kk(w)))
    } else if hi == 0x4 {
        Ok(Opcode::OP_4XKK(op_x(w), op_kk(w)))
    } else if hi == 0x5 {
        if w & 0xF == 0x0 {
            Ok(Opcode::OP_5XY0(op_x(w), op_y(w)))
        } else {
            Err(Chip8Error::UnknownOpcode(w))
        }
    } else if hi == 0x6 {
        Ok(Opcode::OP_6XKK(op_x(w), op_kk(w)))
    } else if hi == 0x7 {
        Ok(Opcode::OP_7XKK(op_x(w), op_kk(w)))
    } else if hi == 0x8 {
        let lo = w & 0xF;
        if lo == 0x0 {
            Ok(Opcode::OP_8XY0(op_x(w), op_y(w)))
        } else if lo == 0x1 {
            Ok(Opcode::OP_8XY1(op_x(w), op_y(w)))
        } else if lo == 0x2 {
            Ok(Opcode::OP_8XY2(op_x(w), op_y(w)))
        } else if lo == 0x3 {
            Ok(Opcode::OP_8XY3(op_x(w), op_y(w)))
        } else if lo == 0x4 {
            Ok(Opcode::OP_8XY4(op_x(w), op_y(w)))
        } else if lo == 0x5 {
            Ok(Opcode::OP_8XY5(op_x(w), op_y(w)))
        } else if lo == 0x6 {
            Ok(Opcode::OP_8X16(op_x(w)))
        } else if lo == 0x7 {
            Ok(Opcode::OP_8XY7(op_x(w), op_y(w)))
        } else if lo == 0xE {
            Ok(Opcode::OP_8X1E(op_x(w)))
        } else {
            Err(Chip8Error::UnknownOpcode(w))
        }
    } else if hi == 0x9 {
        if w & 0xF == 0x0 {
            Ok(Opcode::OP_9XY0(op_x(w), op_y(w)))
        } else {
            Err(Chip8Error::UnknownOpcode(w))
        }
    } else if hi == 0xA {
        Ok(Opcode::OP_AMMM(op_nnn(w)))
    } else if hi == 0xB {
        Ok(Opcode::OP_BMMM(op_nnn(w)))
    } else if hi == 0xC {
        Ok(Opcode::OP_CXKK(op_x(w), op_kk(w)))
    } else if hi == 0xD {
        Ok(Opcode::OP_DXYN(op_x(w), op_y(w), op_n(w)))
    } else if hi == 0xE {
        let lo = w & 0xFF;
        if lo == 0x9E {
            Ok(Opcode::OP_EX9E(op_x(w)))
        } else if lo == 0xA1 {
            Ok(Opcode::OP_EXA1(op_x(w)))
        } else {
            Err(Chip8Error::UnknownOpcode(w))
        }
    } else {
        let lo = w & 0xFF;
        if lo == 0x07 {
            Ok(Opcode::OP_FX07(op_x(w)))
        } else if lo == 0x0A {
            Ok(Opcode::OP_FX0A(op_x(w)))
        } else if lo == 0x15 {
            Ok(Opcode::OP_FX15(op_x(w)))
        } else if lo == 0x18 {
            Ok(Opcode::OP_FX18(op_x(w)))
        } else if lo == 0x1E {
            Ok(Opcode::OP_FX1E(op_x(w)))
        } else if lo == 0x29 {
            Ok(Opcode::OP_FX29(op_x(w)))
        } else if lo == 0x33 {
            Ok(Opcode::OP_FX33(op_x(w)))
        } else if lo == 0x55 {
            Ok(Opcode::OP_FX55(op_x(w)))
        } else if lo == 0x65 {
            Ok(Opcode::OP_FX65(op_x(w)))
        } else {
            Err(Chip8Error::UnknownOpcode(w))
        }
    }
}

/// The operand fields of every decoded opcode are in range.
pub proof fn lemma_decoded_valid(w: u16)
    ensures
        decode_spec(w) matches Ok(op) ==> op.valid(),
{
    assert(((w >> 8) & 0xF) < 16) by (bit_vector);
    assert(((w >> 4) & 0xF) < 16) by (bit_vector);
    assert((w & 0xFFF) < 0x1000) by (bit_vector);
    assert((w & 0xF) < 16) by (bit_vector);
}

/// Extract the register-and-immediate operands of an `_XKK` word.
pub fn decode_xkk(instruction: u16) -> (r: (usize, u8))
    ensures
        r.0 == op_x(instruction),
        r.1 == op_kk(instruction),
{
    (((instruction >> 8) & 0xF) as usize, (instruction & 0xFF) as u8)
}

/// Extract the register-pair operands of an `_XY_` word.
pub fn decode_xy(instruction: u16) -> (r: (usize, usize))
    ensures
        r.0 == op_x(instruction),
        r.1 == op_y(instruction),
{
    (((instruction >> 8) & 0xF) as usize, ((instruction >> 4) & 0xF) as usize)
}

/// Extract the single register operand of an `_X__` word.
pub fn decode_x(instruction: u16) -> (r: usize)
    ensures
        r == op_x(instruction),
{
    ((instruction >> 8) & 0xF) as usize
}

/// Map a 16-bit instruction word to its opcode, or report a decode
/// failure for any word outside the architecture's encodings.
pub fn decode(instruction: u16) -> (r: Result<Opcode, Chip8Error>)
    ensures
        r == decode_spec(instruction),
        r matches Ok(op) ==> op.valid(),
{
    proof {
        lemma_decoded_valid(instruction);
    }
    let hi = instruction >> 12;
    if hi == 0x0 {
        if instruction == 0x0000 {
            Ok(Opcode::OP_0000)
        } else if instruction == 0x00E0 {
            Ok(Opcode::OP_00E0)
        } else if instruction == 0x00EE {
            Ok(Opcode::OP_00EE)
        } else {
            Err(Chip8Error::UnknownOpcode(instruction))
        }
    } else if hi == 0x1 {
        Ok(Opcode::OP_1MMM((instruction & 0xFFF) as usize))
    } else if hi == 0x2 {
        Ok(Opcode::OP_2MMM((instruction & 0xFFF) as usize))
    } else if hi == 0x3 {
        let (x, kk) = decode_xkk(instruction);
        Ok(Opcode::OP_3XKK(x, kk))
    } else if hi == 0x4 {
        let (x, kk) = decode_xkk(instruction);
        Ok(Opcode::OP_4XKK(x, kk))
    } else if hi == 0x5 {
        if instruction & 0xF == 0x0 {
            let (x, y) = decode_xy(instruction);
            Ok(Opcode::OP_5XY0(x, y))
        } else {
            Err(Chip8Error::UnknownOpcode(instruction))
        }
    } else if hi == 0x6 {
        let (x, kk) = decode_xkk(instruction);
        Ok(Opcode::OP_6XKK(x, kk))
    } else if hi == 0x7 {
        let (x, kk) = decode_xkk(instruction);
        Ok(Opcode::OP_7XKK(x, kk))
    } else if hi == 0x8 {
        let lo = instruction & 0xF;
        let (x, y) = decode_xy(instruction);
        if lo == 0x0 {
            Ok(Opcode::OP_8XY0(x, y))
        } else if lo == 0x1 {
            Ok(Opcode::OP_8XY1(x, y))
        } else if lo == 0x2 {
            Ok(Opcode::OP_8XY2(x, y))
        } else if lo == 0x3 {
            Ok(Opcode::OP_8XY3(x, y))
        } else if lo == 0x4 {
            Ok(Opcode::OP_8XY4(x, y))
        } else if lo == 0x5 {
            Ok(Opcode::OP_8XY5(x, y))
        } else if lo == 0x6 {
            Ok(Opcode::OP_8X16(x))
        } else if lo == 0x7 {
            Ok(Opcode::OP_8XY7(x, y))
        } else if lo == 0xE {
            Ok(Opcode::OP_8X1E(x))
        } else {
            Err(Chip8Error::UnknownOpcode(instruction))
        }
    } else if hi == 0x9 {
        if instruction & 0xF == 0x0 {
            let (x, y) = decode_xy(instruction);
            Ok(Opcode::OP_9XY0(x, y))
        } else {
            Err(Chip8Error::UnknownOpcode(instruction))
        }
    } else if hi == 0xA {
        Ok(Opcode::OP_AMMM((instruction & 0xFFF) as usize))
    } else if hi == 0xB {
        Ok(Opcode::OP_BMMM((instruction & 0xFFF) as usize))
    } else if hi == 0xC {
        let (x, kk) = decode_xkk(instruction);
        Ok(Opcode::OP_CXKK(x, kk))
    } else if hi == 0xD {
        let (x, y) = decode_xy(instruction);
        let n = (instruction & 0xF) as u8;
        Ok(Opcode::OP_DXYN(x, y, n))
    } else if hi == 0xE {
        let lo = instruction & 0xFF;
        if lo == 0x9E {
            Ok(Opcode::OP_EX9E(decode_x(instruction)))
        } else if lo == 0xA1 {
            Ok(Opcode::OP_EXA1(decode_x(instruction)))
        } else {
            Err(Chip8Error::UnknownOpcode(instruction))
        }
    } else {
        let lo = instruction & 0xFF;
        if lo == 0x07 {
            Ok(Opcode::OP_FX07(decode_x(instruction)))
        } else if lo == 0x0A {
            Ok(Opcode::OP_FX0A(decode_x(instruction)))
        } else if lo == 0x15 {
            Ok(Opcode::OP_FX15(decode_x(instruction)))
        } else if lo == 0x18 {
            Ok(Opcode::OP_FX18(decode_x(instruction)))
        } else if lo == 0x1E {
            Ok(Opcode::OP_FX1E(decode_x(instruction)))
        } else if lo == 0x29 {
            Ok(Opcode::OP_FX29(decode_x(instruction)))
        } else if lo == 0x33 {
            Ok(Opcode::OP_FX33(decode_x(instruction)))
        } else if lo == 0x55 {
            Ok(Opcode::OP_FX55(decode_x(instruction)))
        } else if lo == 0x65 {
            Ok(Opcode::OP_FX65(decode_x(instruction)))
        } else {
            Err(Chip8Error::UnknownOpcode(instruction))
        }
    }
}

/// Decoding a word with top nibble 0xA yields the set-index
/// instruction whose address field is the word's low twelve bits.
pub proof fn lemma_decode_set_index(w: u16)
    requires
        w >> 12 == 0xA,
    ensures
        decode_spec(w) == Ok::<Opcode, Chip8Error>(Opcode::OP_AMMM((w & 0xFFF) as usize)),
{
}

/// Decoding the word 0x00E0 yields the clear-screen instruction.
pub proof fn lemma_decode_clear_screen()
    ensures
        decode_spec(0x00E0) == Ok::<Opcode, Chip8Error>(Opcode::OP_00E0),
{
    assert(0x00E0u16 >> 12 == 0x0) by (bit_vector);
}

/// A word in the 0xF family whose low byte matches none of the listed
/// suffixes fails to decode.
pub proof fn lemma_decode_f_family_unknown(w: u16)
    requires
        w >> 12 == 0xF,
        w & 0xFF != 0x07,
        w & 0xFF != 0x0A,
        w & 0xFF != 0x15,
        w & 0xFF != 0x18,
        w & 0xFF != 0x1E,
        w & 0xFF != 0x29,
        w & 0xFF != 0x33,
        w & 0xFF != 0x55,
        w & 0xFF != 0x65,
    ensures
        decode_spec(w) == Err::<Opcode, Chip8Error>(Chip8Error::UnknownOpcode(w)),
{
}

} // verus!
