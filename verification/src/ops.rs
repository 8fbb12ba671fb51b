//! Instruction words and their decoding.
//!
//! An instruction is one 16-bit big-endian word, conventionally read as four
//! nibbles from most significant to least significant. The high nibble picks
//! the opcode family; families `0x8`, `0xE` and `0xF` sub-select on the low
//! nibble or the low byte. Decoding is total: every word maps to exactly one
//! variant, with `Unknown` carrying any word no pattern claims.

use vstd::prelude::*;

verus! {

/// A decoded instruction with its operand fields extracted.
///
/// Register operands are 4-bit indices (always below 16), address operands
/// are 12 bits (always below 4096); `decode` guarantees both, stated by
/// [`op_wf`].
#[derive(Clone, Copy, Debug, PartialEq, Eq, Structural)]
pub enum Op {
    /// `00E0`: clear the framebuffer.
    Clear,
    /// `00EE`: pop the call stack into the program counter.
    Return,
    /// `1nnn`: program counter := nnn.
    AbsJump(u16),
    /// `2nnn`: push the program counter, then jump to nnn.
    Call(u16),
    /// `Bnnn`: program counter := nnn + register 0.
    OffsetJump(u16),
    /// `3xkk`: skip the next instruction if register x equals kk.
    SkipEqVal(u8, u8),
    /// `4xkk`: skip the next instruction if register x differs from kk.
    SkipNeqVal(u8, u8),
    /// `5xy_`: skip the next instruction if registers x and y are equal.
    SkipEqReg(u8, u8),
    /// `6xkk`: register x := kk.
    SetVal(u8, u8),
    /// `7xkk`: register x := register x + kk, wrapping, flag untouched.
    AddVal(u8, u8),
    /// `9xy_`: skip the next instruction if registers x and y differ.
    SkipNeqReg(u8, u8),
    /// `Cxkk`: register x := random byte AND kk.
    Rand(u8, u8),
    /// `8xy0`: register x := register y.
    Mov(u8, u8),
    /// `8xy1`: register x := register x OR register y.
    Or(u8, u8),
    /// `8xy2`: register x := register x AND register y.
    And(u8, u8),
    /// `8xy3`: register x := register x XOR register y.
    Xor(u8, u8),
    /// `8xy4`: register x := register x + register y, carry into flag.
    Add(u8, u8),
    /// `8xy5`: register x := register x - register y, borrow into flag.
    Sub(u8, u8),
    /// `8xy6`: register x := register y, then shift right by one.
    Shr(u8, u8),
    /// `8xy7`: register x := register y - register x, borrow into flag.
    SubN(u8, u8),
    /// `8xyE`: register x := register y, then shift left by one.
    Shl(u8, u8),
    /// `Dxyn`: draw an n-row sprite at (register x, register y).
    Draw(u8, u8, u8),
    /// `Ex9E`: skip if the key in register x is pressed (decoded only).
    SkipKey(u8),
    /// `ExA1`: skip if the key in register x is not pressed (decoded only).
    SkipNoKey(u8),
    /// `Fx0A`: block until a key press lands in register x (decoded only).
    GetKey(u8),
    /// `Fx07`: register x := delay timer (decoded only).
    GetDelay(u8),
    /// `Fx15`: delay timer := register x (decoded only).
    SetDelay(u8),
    /// `Fx18`: sound timer := register x (decoded only).
    SetSoundTimer(u8),
    /// `Fx1E`: index register += register x (decoded only).
    IncrIndex(u8),
    /// `Annn`: index register := nnn.
    SetIndex(u16),
    /// `Fx29`: index register := font glyph of register x (decoded only).
    SetSpriteI(u8),
    /// `Fx33`: store register x as decimal digits (decoded only).
    DecimalRepr(u8),
    /// `Fx55`: dump registers 0..=x to memory (decoded only).
    DumpRegisters(u8),
    /// `Fx65`: load registers 0..=x from memory (decoded only).
    LoadRegisters(u8),
    /// Any word no pattern above claims, carried verbatim.
    Unknown(u16),
}

/// Second nibble of a word: the first register operand.
pub open spec fn op_x(w: u16) -> u8 {
    ((w >> 8) & 0xF) as u8
}

/// Third nibble of a word: the second register operand.
pub open spec fn op_y(w: u16) -> u8 {
    ((w >> 4) & 0xF) as u8
}

/// Low nibble of a word: a sprite height or an ALU selector.
pub open spec fn op_n(w: u16) -> u8 {
    (w & 0xF) as u8
}

/// Low three nibbles of a word: a 12-bit address operand.
pub open spec fn op_addr(w: u16) -> u16 {
    w & 0xFFF
}

/// Low byte of a word: an immediate, or the selector of the `E`/`F` families.
pub open spec fn op_byte(w: u16) -> u8 {
    (w & 0xFF) as u8
}

/// What `decode` returns for each word: the bit-field layout of the
/// instruction set, one case per family.
pub open spec fn spec_decode(w: u16) -> Op {
    let fam = w >> 12;
    if fam == 0x0 {
        // The second nibble of the two fixed words is ignored, not validated.
        if op_byte(w) == 0xE0 {
            Op::Clear
        } else if op_byte(w) == 0xEE {
            Op::Return
        } else {
            Op::Unknown(w)
        }
    } else if fam == 0x1 {
        Op::AbsJump(op_addr(w))
    } else if fam == 0x2 {
        Op::Call(op_addr(w))
    } else if fam == 0x3 {
        Op::SkipEqVal(op_x(w), op_byte(w))
    } else if fam == 0x4 {
        Op::SkipNeqVal(op_x(w), op_byte(w))
    } else if fam == 0x5 {
        // The low nibble is ignored, not validated.
        Op::SkipEqReg(op_x(w), op_y(w))
    } else if fam == 0x6 {
        Op::SetVal(op_x(w), op_byte(w))
    } else if fam == 0x7 {
        Op::AddVal(op_x(w), op_byte(w))
    } else if fam == 0x8 {
        let sel = op_n(w);
        if sel == 0x0 {
            Op::Mov(op_x(w), op_y(w))
        } else if sel == 0x1 {
            Op::Or(op_x(w), op_y(w))
        } else if sel == 0x2 {
            Op::And(op_x(w), op_y(w))
        } else if sel == 0x3 {
            Op::Xor(op_x(w), op_y(w))
        } else if sel == 0x4 {
            Op::Add(op_x(w), op_y(w))
        } else if sel == 0x5 {
            Op::Sub(op_x(w), op_y(w))
        } else if sel == 0x6 {
            Op::Shr(op_x(w), op_y(w))
        } else if sel == 0x7 {
            Op::SubN(op_x(w), op_y(w))
        } else if sel == 0xE {
            Op::Shl(op_x(w), op_y(w))
        } else {
            Op::Unknown(w)
        }
    } else if fam == 0x9 {
        // The low nibble is ignored, not validated.
        Op::SkipNeqReg(op_x(w), op_y(w))
    } else if fam == 0xA {
        Op::SetIndex(op_addr(w))
    } else if fam == 0xB {
        Op::OffsetJump(op_addr(w))
    } else if fam == 0xC {
        Op::Rand(op_x(w), op_byte(w))
    } else if fam == 0xD {
        Op::Draw(op_x(w), op_y(w), op_n(w))
    } else if fam == 0xE {
        let sel = op_byte(w);
        if sel == 0x9E {
            Op::SkipKey(op_x(w))
        } else if sel == 0xA1 {
            Op::SkipNoKey(op_x(w))
        } else {
            Op::Unknown(w)
        }
    } else {
        // fam == 0xF: the low byte selects from a whitelist of operations.
        let sel = op_byte(w);
        if sel == 0x07 {
            Op::GetDelay(op_x(w))
        } else if sel == 0x0A {
            Op::GetKey(op_x(w))
        } else if sel == 0x15 {
            Op::SetDelay(op_x(w))
        } else if sel == 0x18 {
            Op::SetSoundTimer(op_x(w))
        } else if sel == 0x1E {
            Op::IncrIndex(op_x(w))
        } else if sel == 0x29 {
            Op::SetSpriteI(op_x(w))
        } else if sel == 0x33 {
            Op::DecimalRepr(op_x(w))
        } else if sel == 0x55 {
            Op::DumpRegisters(op_x(w))
        } else if sel == 0x65 {
            Op::LoadRegisters(op_x(w))
        } else {
            Op::Unknown(w)
        }
    }
}

/// Operand fields are in range: register indices fit four bits, addresses
/// fit twelve. Every decoded instruction satisfies this.
pub open spec fn op_wf(op: Op) -> bool {
    match op {
        Op::Clear => true,
        Op::Return => true,
        Op::AbsJump(a) => a < 4096,
        Op::Call(a) => a < 4096,
        Op::OffsetJump(a) => a < 4096,
        Op::SetIndex(a) => a < 4096,
        Op::SkipEqVal(x, _) => x < 16,
        Op::SkipNeqVal(x, _) => x < 16,
        Op::SetVal(x, _) => x < 16,
        Op::AddVal(x, _) => x < 16,
        Op::Rand(x, _) => x < 16,
        Op::SkipEqReg(x, y) => x < 16 && y < 16,
        Op::SkipNeqReg(x, y) => x < 16 && y < 16,
        Op::Mov(x, y) => x < 16 && y < 16,
        Op::Or(x, y) => x < 16 && y < 16,
        Op::And(x, y) => x < 16 && y < 16,
        Op::Xor(x, y) => x < 16 && y < 16,
        Op::Add(x, y) => x < 16 && y < 16,
        Op::Sub(x, y) => x < 16 && y < 16,
        Op::Shr(x, y) => x < 16 && y < 16,
        Op::SubN(x, y) => x < 16 && y < 16,
        Op::Shl(x, y) => x < 16 && y < 16,
        Op::Draw(x, y, n) => x < 16 && y < 16 && n < 16,
        Op::SkipKey(x) => x < 16,
        Op::SkipNoKey(x) => x < 16,
        Op::GetKey(x) => x < 16,
        Op::GetDelay(x) => x < 16,
        Op::SetDelay(x) => x < 16,
        Op::SetSoundTimer(x) => x < 16,
        Op::IncrIndex(x) => x < 16,
        Op::SetSpriteI(x) => x < 16,
        Op::DecimalRepr(x) => x < 16,
        Op::DumpRegisters(x) => x < 16,
        Op::LoadRegisters(x) => x < 16,
        Op::Unknown(_) => true,
    }
}

/// The extracted bit fields are bounded by their widths.
proof fn lemma_fields_bounded(w: u16)
    by (bit_vector)
    ensures
        (((w >> 8) & 0xF) as u8) < 16,
        (((w >> 4) & 0xF) as u8) < 16,
        ((w & 0xF) as u8) < 16,
        (w & 0xFFF) < 4096,
{
}

/// Every word decodes to a well-formed instruction: decoding is total and
/// keeps operand fields within their widths.
pub proof fn lemma_decode_wf(w: u16)
    ensures
        op_wf(spec_decode(w)),
{
    lemma_fields_bounded(w);
}

/// Map a 16-bit instruction word to its decoded form. Total: no word is
/// rejected, and unclaimed words come back as `Op::Unknown`.
pub fn decode(w: u16) -> (op: Op)
    ensures
        op == spec_decode(w),
        op_wf(op),
{
    proof {
        lemma_decode_wf(w);
    }
    let fam = w >> 12;
    let x = ((w >> 8) & 0xF) as u8;
    let y = ((w >> 4) & 0xF) as u8;
    let n = (w & 0xF) as u8;
    let addr = w & 0xFFF;
    let byte = (w & 0xFF) as u8;
    if fam == 0x0 {
        if byte == 0xE0 {
            Op::Clear
        } else if byte == 0xEE {
            Op::Return
        } else {
            Op::Unknown(w)
        }
    } else if fam == 0x1 {
        Op::AbsJump(addr)
    } else if fam == 0x2 {
        Op::Call(addr)
    } else if fam == 0x3 {
        Op::SkipEqVal(x, byte)
    } else if fam == 0x4 {
        Op::SkipNeqVal(x, byte)
    } else if fam == 0x5 {
        Op::SkipEqReg(x, y)
    } else if fam == 0x6 {
        Op::SetVal(x, byte)
    } else if fam == 0x7 {
        Op::AddVal(x, byte)
    } else if fam == 0x8 {
        if n == 0x0 {
            Op::Mov(x, y)
        } else if n == 0x1 {
            Op::Or(x, y)
        } else if n == 0x2 {
            Op::And(x, y)
        } else if n == 0x3 {
            Op::Xor(x, y)
        } else if n == 0x4 {
            Op::Add(x, y)
        } else if n == 0x5 {
            Op::Sub(x, y)
        } else if n == 0x6 {
            Op::Shr(x, y)
        } else if n == 0x7 {
            Op::SubN(x, y)
        } else if n == 0xE {
            Op::Shl(x, y)
        } else {
            Op::Unknown(w)
        }
    } else if fam == 0x9 {
        Op::SkipNeqReg(x, y)
    } else if fam == 0xA {
        Op::SetIndex(addr)
    } else if fam == 0xB {
        Op::OffsetJump(addr)
    } else if fam == 0xC {
        Op::Rand(x, byte)
    } else if fam == 0xD {
        Op::Draw(x, y, n)
    } else if fam == 0xE {
        if byte == 0x9E {
            Op::SkipKey(x)
        } else if byte == 0xA1 {
            Op::SkipNoKey(x)
        } else {
            Op::Unknown(w)
        }
    } else {
        if byte == 0x07 {
            Op::GetDelay(x)
        } else if byte == 0x0A {
            Op::GetKey(x)
        } else if byte == 0x15 {
            Op::SetDelay(x)
        } else if byte == 0x18 {
            Op::SetSoundTimer(x)
        } else if byte == 0x1E {
            Op::IncrIndex(x)
        } else if byte == 0x29 {
            Op::SetSpriteI(x)
        } else if byte == 0x33 {
            Op::DecimalRepr(x)
        } else if byte == 0x55 {
            Op::DumpRegisters(x)
        } else if byte == 0x65 {
            Op::LoadRegisters(x)
        } else {
            Op::Unknown(w)
        }
    }
}

} // verus!
