//! The instruction decoder: a pure, stateless map from a 16-bit opcode word
//! to a symbolic operation, or to a decode failure carrying the word.
//!
//! Operand fields are extracted by the documented bit masks: register
//! indices from the second and third nibbles, the 4-bit immediate from the
//! low nibble, the 8-bit immediate from the low byte, and the 12-bit address
//! from the low 12 bits.

use vstd::prelude::*;

verus! {

/// A decoded operation: one variant per documented opcode class, carrying
/// the operand fields that the class uses.
#[derive(Clone, Copy, Debug, PartialEq, Eq, Structural)]
pub enum Op {
    /// 0x0000: perform no operation.
    Nop,
    /// 0x00E0: clear the framebuffer to all-off.
    ClearScreen,
    /// 0x00EE: pop the stack into the program counter.
    Return,
    /// 0x1NNN: set the program counter to NNN.
    Jump { nnn: u16 },
    /// 0x2NNN: push the program counter, then set it to NNN.
    Call { nnn: u16 },
    /// 0x3XNN: skip the next instruction if V[X] == NN.
    SkipEqImm { x: u8, nn: u8 },
    /// 0x4XNN: skip the next instruction if V[X] != NN.
    SkipNeImm { x: u8, nn: u8 },
    /// 0x5XY0: skip the next instruction if V[X] == V[Y].
    SkipEqReg { x: u8, y: u8 },
    /// 0x6XNN: V[X] = NN.
    SetImm { x: u8, nn: u8 },
    /// 0x7XNN: V[X] = V[X] + NN modulo 256; VF unaffected.
    AddImm { x: u8, nn: u8 },
    /// 0x8XY0: V[X] = V[Y].
    CopyReg { x: u8, y: u8 },
    /// 0x8XY1: V[X] = V[X] | V[Y].
    OrReg { x: u8, y: u8 },
    /// 0x8XY2: V[X] = V[X] & V[Y].
    AndReg { x: u8, y: u8 },
    /// 0x8XY3: V[X] = V[X] ^ V[Y].
    XorReg { x: u8, y: u8 },
    /// 0x8XY4: V[X] += V[Y]; VF = carry out of the 8-bit sum.
    AddReg { x: u8, y: u8 },
    /// 0x8XY5: V[X] -= V[Y] modulo 256; VF = 1 exactly when no borrow.
    SubReg { x: u8, y: u8 },
    /// 0x8XY6: VF = low bit of V[X] before the shift; V[X] >>= 1.
    ShrReg { x: u8 },
    /// 0x8XY7: V[X] = V[Y] - V[X] modulo 256; VF = 1 exactly when no borrow.
    SubFrom { x: u8, y: u8 },
    /// 0x8XYE: VF = high bit of V[X] before the shift; V[X] <<= 1.
    ShlReg { x: u8 },
    /// 0x9XY0: skip the next instruction if V[X] != V[Y].
    SkipNeReg { x: u8, y: u8 },
    /// 0xANNN: I = NNN.
    SetIndex { nnn: u16 },
    /// 0xBNNN: program counter = NNN + V[0].
    JumpPlusV0 { nnn: u16 },
    /// 0xCXNN: V[X] = (pseudo-random byte) & NN.
    RandMask { x: u8, nn: u8 },
    /// 0xDXYN: draw an N-row sprite from memory[I..] at (V[X] % 64, V[Y] % 32).
    Draw { x: u8, y: u8, n: u8 },
    /// 0xEX9E: skip the next instruction if key V[X] is pressed.
    SkipIfKey { x: u8 },
    /// 0xEXA1: skip the next instruction if key V[X] is not pressed.
    SkipIfNoKey { x: u8 },
    /// 0xFX07: V[X] = delay timer.
    ReadDelay { x: u8 },
    /// 0xFX0A: suspend the cycle loop until a key is pressed; V[X] = its code.
    WaitKey { x: u8 },
    /// 0xFX15: delay timer = V[X].
    SetDelay { x: u8 },
    /// 0xFX18: sound timer = V[X].
    SetSound { x: u8 },
    /// 0xFX1E: I += V[X]; VF = 1 exactly when the sum exceeds 0xFFF.
    AddIndex { x: u8 },
    /// 0xFX29: I = font base + 5 * (low nibble of V[X]).
    FontIndex { x: u8 },
    /// 0xFX33: write the decimal digits of V[X] to memory[I], [I+1], [I+2].
    StoreDigits { x: u8 },
    /// 0xFX55: write V[0..=X] to memory starting at I; I unchanged.
    StoreRegs { x: u8 },
    /// 0xFX65: read memory starting at I into V[0..=X]; I unchanged.
    LoadRegs { x: u8 },
}

/// A recognized instruction: the raw opcode word and its decoded operation.
#[derive(Clone, Copy, Debug, PartialEq, Eq, Structural)]
pub struct Instruction {
    pub opcode: u16,
    pub op: Op,
}

/// The decode table as a mathematical function: `Some(op)` exactly on the
/// documented opcode patterns, `None` on the reserved patterns inside the
/// dispatch families (0x0, 0x8, 0xE and 0xF).
pub open spec fn spec_decode(w: u16) -> Option<Op> {
    let x = ((w >> 8) & 0xF) as u8;
    let y = ((w >> 4) & 0xF) as u8;
    let n = (w & 0xF) as u8;
    let nn = (w & 0xFF) as u8;
    let nnn = w & 0xFFF;
    let hi = w >> 12;
    if w == 0x0000 {
        Some(Op::Nop)
    } else if w == 0x00E0 {
        Some(Op::ClearScreen)
    } else if w == 0x00EE {
        Some(Op::Return)
    } else if hi == 0x1 {
        Some(Op::Jump { nnn })
    } else if hi == 0x2 {
        Some(Op::Call { nnn })
    } else if hi == 0x3 {
        Some(Op::SkipEqImm { x, nn })
    } else if hi == 0x4 {
        Some(Op::SkipNeImm { x, nn })
    } else if hi == 0x5 {
        Some(Op::SkipEqReg { x, y })
    } else if hi == 0x6 {
        Some(Op::SetImm { x, nn })
    } else if hi == 0x7 {
        Some(Op::AddImm { x, nn })
    } else if hi == 0x8 {
        if n == 0x0 {
            Some(Op::CopyReg { x, y })
        } else if n == 0x1 {
            Some(Op::OrReg { x, y })
        } else if n == 0x2 {
            Some(Op::AndReg { x, y })
        } else if n == 0x3 {
            Some(Op::XorReg { x, y })
        } else if n == 0x4 {
            Some(Op::AddReg { x, y })
        } else if n == 0x5 {
            Some(Op::SubReg { x, y })
        } else if n == 0x6 {
            Some(Op::ShrReg { x })
        } else if n == 0x7 {
            Some(Op::SubFrom { x, y })
        } else if n == 0xE {
            Some(Op::ShlReg { x })
        } else {
            None
        }
    } else if hi == 0x9 {
        Some(Op::SkipNeReg { x, y })
    } else if hi == 0xA {
        Some(Op::SetIndex { nnn })
    } else if hi == 0xB {
        Some(Op::JumpPlusV0 { nnn })
    } else if hi == 0xC {
        Some(Op::RandMask { x, nn })
    } else if hi == 0xD {
        Some(Op::Draw { x, y, n })
    } else if hi == 0xE {
        if nn == 0x9E {
            Some(Op::SkipIfKey { x })
        } else if nn == 0xA1 {
            Some(Op::SkipIfNoKey { x })
        } else {
            None
        }
    } else if hi == 0xF {
        if nn == 0x07 {
            Some(Op::ReadDelay { x })
        } else if nn == 0x0A {
            Some(Op::WaitKey { x })
        } else if nn == 0x15 {
            Some(Op::SetDelay { x })
        } else if nn == 0x18 {
            Some(Op::SetSound { x })
        } else if nn == 0x1E {
            Some(Op::AddIndex { x })
        } else if nn == 0x29 {
            Some(Op::FontIndex { x })
        } else if nn == 0x33 {
            Some(Op::StoreDigits { x })
        } else if nn == 0x55 {
            Some(Op::StoreRegs { x })
        } else if nn == 0x65 {
            Some(Op::LoadRegs { x })
        } else {
            None
        }
    } else {
        // The remaining family-0x0 patterns are unassigned.
        None
    }
}

/// Every operand field a decoded operation carries is in range: register
/// indices and 4-bit immediates below 16, addresses within 12 bits.
pub open spec fn op_wf(op: Op) -> bool {
    match op {
        Op::Nop => true,
        Op::ClearScreen => true,
        Op::Return => true,
        Op::Jump { nnn } => nnn <= 0xFFF,
        Op::Call { nnn } => nnn <= 0xFFF,
        Op::SkipEqImm { x, nn } => x < 16,
        Op::SkipNeImm { x, nn } => x < 16,
        Op::SkipEqReg { x, y } => x < 16 && y < 16,
        Op::SetImm { x, nn } => x < 16,
        Op::AddImm { x, nn } => x < 16,
        Op::CopyReg { x, y } => x < 16 && y < 16,
        Op::OrReg { x, y } => x < 16 && y < 16,
        Op::AndReg { x, y } => x < 16 && y < 16,
        Op::XorReg { x, y } => x < 16 && y < 16,
        Op::AddReg { x, y } => x < 16 && y < 16,
        Op::SubReg { x, y } => x < 16 && y < 16,
        Op::ShrReg { x } => x < 16,
        Op::SubFrom { x, y } => x < 16 && y < 16,
        Op::ShlReg { x } => x < 16,
        Op::SkipNeReg { x, y } => x < 16 && y < 16,
        Op::SetIndex { nnn } => nnn <= 0xFFF,
        Op::JumpPlusV0 { nnn } => nnn <= 0xFFF,
        Op::RandMask { x, nn } => x < 16,
        Op::Draw { x, y, n } => x < 16 && y < 16 && n < 16,
        Op::SkipIfKey { x } => x < 16,
        Op::SkipIfNoKey { x } => x < 16,
        Op::ReadDelay { x } => x < 16,
        Op::WaitKey { x } => x < 16,
        Op::SetDelay { x } => x < 16,
        Op::SetSound { x } => x < 16,
        Op::AddIndex { x } => x < 16,
        Op::FontIndex { x } => x < 16,
        Op::StoreDigits { x } => x < 16,
        Op::StoreRegs { x } => x < 16,
        Op::LoadRegs { x } => x < 16,
    }
}

/// The field extractions of `spec_decode` stay within their mask's range.
proof fn lemma_field_bounds(w: u16)
    ensures
        (((w >> 8) & 0xF) as u8) < 16,
        (((w >> 4) & 0xF) as u8) < 16,
        ((w & 0xF) as u8) < 16,
        (w & 0xFFF) <= 0xFFF,
{
    assert((((w >> 8) & 0xF) as u8) < 16 && (((w >> 4) & 0xF) as u8) < 16 && ((w & 0xF) as u8) < 16
        && (w & 0xFFF) <= 0xFFF) by (bit_vector);
}

/// Decoding recognizes exactly the documented opcode patterns.
pub proof fn lemma_decode_wf(w: u16)
    ensures
        spec_decode(w) matches Some(op) ==> op_wf(op),
{
    lemma_field_bounds(w);
}

/// Decoding is total on every opcode family without reserved patterns: a
/// word whose leading nibble is 0x1 through 0x7 or 0x9 through 0xD always
/// decodes, whatever its low bits hold.
pub proof fn lemma_decode_total_unconditional(w: u16)
    requires
        1 <= w >> 12 <= 7 || 9 <= w >> 12 <= 0xD,
    ensures
        spec_decode(w) is Some,
{
    assert(w >> 12 >= 1 ==> w != 0x0000 && w != 0x00E0 && w != 0x00EE) by (bit_vector);
}

/// Decode an opcode word. Returns the recognized instruction, or, for a
/// reserved or unassigned pattern, the unrecognized word itself.
pub fn lookup(opcode: u16) -> (r: Result<Instruction, u16>)
    ensures
        r is Ok <==> spec_decode(opcode) is Some,
        r matches Ok(ins) ==> ins.opcode == opcode && spec_decode(opcode) == Some(ins.op)
            && op_wf(ins.op),
        r matches Err(w) ==> w == opcode,
{
    proof {
        lemma_decode_wf(opcode);
    }
    let x = ((opcode >> 8) & 0xF) as u8;
    let y = ((opcode >> 4) & 0xF) as u8;
    let n = (opcode & 0xF) as u8;
    let nn = (opcode & 0xFF) as u8;
    let nnn = opcode & 0xFFF;
    let hi = opcode >> 12;
    let op: Op = if opcode == 0x0000 {
        Op::Nop
    } else if opcode == 0x00E0 {
        Op::ClearScreen
    } else if opcode == 0x00EE {
        Op::Return
    } else if hi == 0x1 {
        Op::Jump { nnn }
    } else if hi == 0x2 {
        Op::Call { nnn }
    } else if hi == 0x3 {
        Op::SkipEqImm { x, nn }
    } else if hi == 0x4 {
        Op::SkipNeImm { x, nn }
    } else if hi == 0x5 {
        Op::SkipEqReg { x, y }
    } else if hi == 0x6 {
        Op::SetImm { x, nn }
    } else if hi == 0x7 {
        Op::AddImm { x, nn }
    } else if hi == 0x8 {
        if n == 0x0 {
            Op::CopyReg { x, y }
        } else if n == 0x1 {
            Op::OrReg { x, y }
        } else if n == 0x2 {
            Op::AndReg { x, y }
        } else if n == 0x3 {
            Op::XorReg { x, y }
        } else if n == 0x4 {
            Op::AddReg { x, y }
        } else if n == 0x5 {
            Op::SubReg { x, y }
        } else if n == 0x6 {
            Op::ShrReg { x }
        } else if n == 0x7 {
            Op::SubFrom { x, y }
        } else if n == 0xE {
            Op::ShlReg { x }
        } else {
            return Err(opcode);
        }
    } else if hi == 0x9 {
        Op::SkipNeReg { x, y }
    } else if hi == 0xA {
        Op::SetIndex { nnn }
    } else if hi == 0xB {
        Op::JumpPlusV0 { nnn }
    } else if hi == 0xC {
        Op::RandMask { x, nn }
    } else if hi == 0xD {
        Op::Draw { x, y, n }
    } else if hi == 0xE && nn == 0x9E {
        Op::SkipIfKey { x }
    } else if hi == 0xE && nn == 0xA1 {
        Op::SkipIfNoKey { x }
    } else if hi == 0xF {
        if nn == 0x07 {
            Op::ReadDelay { x }
        } else if nn == 0x0A {
            Op::WaitKey { x }
        } else if nn == 0x15 {
            Op::SetDelay { x }
        } else if nn == 0x18 {
            Op::SetSound { x }
        } else if nn == 0x1E {
            Op::AddIndex { x }
        } else if nn == 0x29 {
            Op::FontIndex { x }
        } else if nn == 0x33 {
            Op::StoreDigits { x }
        } else if nn == 0x55 {
            Op::StoreRegs { x }
        } else if nn == 0x65 {
            Op::LoadRegs { x }
        } else {
            return Err(opcode);
        }
    } else {
        return Err(opcode);
    };
    Ok(Instruction { opcode, op })
}

} // verus!
