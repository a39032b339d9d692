use vstd::prelude::*;

use crate::fault::Fault;

verus! {

/// One decoded instruction word. `x` and `y` name 4-bit register indices
/// packed in the word, `kk` its low byte, `nnn` its low 12 bits and `n` its
/// low nibble.
#[derive(Clone, Copy, Debug, PartialEq, Eq, Structural)]
pub enum Instr {
    /// 00E0: clear the screen.
    Cls,
    /// 00EE: return from the current call.
    Ret,
    /// 1nnn: jump.
    Jp(u16),
    /// 2nnn: call, pushing the return address.
    Call(u16),
    /// 3xkk: skip the next word if `Vx == kk`.
    SeImm(u8, u8),
    /// 4xkk: skip the next word if `Vx != kk`.
    SneImm(u8, u8),
    /// 5xy0: skip the next word if `Vx == Vy`.
    SeReg(u8, u8),
    /// 6xkk: load the immediate into `Vx`.
    LdImm(u8, u8),
    /// 7xkk: add the immediate to `Vx`, wrapping, with no flag side effect.
    AddImm(u8, u8),
    /// 8xy0: copy `Vy` into `Vx`.
    LdReg(u8, u8),
    /// 8xy1: bitwise or.
    Or(u8, u8),
    /// 8xy2: bitwise and.
    And(u8, u8),
    /// 8xy3: bitwise exclusive or.
    Xor(u8, u8),
    /// 8xy4: add with carry flag.
    AddReg(u8, u8),
    /// 8xy5: subtract with borrow-complement flag.
    SubReg(u8, u8),
    /// 8xy6: shift right, dropped bit into the flag.
    Shr(u8, u8),
    /// 8xy7: reversed subtract with borrow-complement flag.
    SubN(u8, u8),
    /// 8xyE: shift left, dropped bit into the flag.
    Shl(u8, u8),
    /// 9xy0: skip the next word if `Vx != Vy`.
    SneReg(u8, u8),
    /// Annn: load the address register.
    LdI(u16),
    /// Bnnn: jump to `nnn + V0`.
    JpV0(u16),
    /// Cxkk: load a random byte masked by `kk` into `Vx`.
    Rnd(u8, u8),
    /// Dxyn: draw `n + 1` sprite rows at column `Vx`, row `Vy`.
    Drw(u8, u8, u8),
    /// Fx07: read the delay timer into `Vx`.
    LdVxDt(u8),
    /// Fx15: set the delay timer from `Vx`.
    LdDtVx(u8),
    /// Fx18: set the sound timer from `Vx`.
    LdStVx(u8),
    /// Fx1E: add `Vx` to the address register.
    AddI(u8),
}

/// The instruction a 16-bit word decodes to, or the fault the word surfaces:
/// words whose class or sub-opcode has no defined behavior are unimplemented,
/// and skip encodings that require a zero low nibble reject a nonzero one.
pub open spec fn spec_decode(word: u16) -> Result<Instr, Fault> {
    let class = word >> 12;
    let x = ((word >> 8) & 0xF) as u8;
    let y = ((word >> 4) & 0xF) as u8;
    let kk = (word & 0xFF) as u8;
    let nnn = word & 0x0FFF;
    let n = (word & 0xF) as u8;
    if class == 0x0 {
        if word == 0x00E0 {
            Ok(Instr::Cls)
        } else if word == 0x00EE {
            Ok(Instr::Ret)
        } else {
            Err(Fault::UnimplementedOpcode)
        }
    } else if class == 0x1 {
        Ok(Instr::Jp(nnn))
    } else if class == 0x2 {
        Ok(Instr::Call(nnn))
    } else if class == 0x3 {
        Ok(Instr::SeImm(x, kk))
    } else if class == 0x4 {
        Ok(Instr::SneImm(x, kk))
    } else if class == 0x5 {
        if n == 0 {
            Ok(Instr::SeReg(x, y))
        } else {
            Err(Fault::InvalidEncoding)
        }
    } else if class == 0x6 {
        Ok(Instr::LdImm(x, kk))
    } else if class == 0x7 {
        Ok(Instr::AddImm(x, kk))
    } else if class == 0x8 {
        if n == 0x0 {
            Ok(Instr::LdReg(x, y))
        } else if n == 0x1 {
            Ok(Instr::Or(x, y))
        } else if n == 0x2 {
            Ok(Instr::And(x, y))
        } else if n == 0x3 {
            Ok(Instr::Xor(x, y))
        } else if n == 0x4 {
            Ok(Instr::AddReg(x, y))
        } else if n == 0x5 {
            Ok(Instr::SubReg(x, y))
        } else if n == 0x6 {
            Ok(Instr::Shr(x, y))
        } else if n == 0x7 {
            Ok(Instr::SubN(x, y))
        } else if n == 0xE {
            Ok(Instr::Shl(x, y))
        } else {
            Err(Fault::UnimplementedOpcode)
        }
    } else if class == 0x9 {
        if n == 0 {
            Ok(Instr::SneReg(x, y))
        } else {
            Err(Fault::InvalidEncoding)
        }
    } else if class == 0xA {
        Ok(Instr::LdI(nnn))
    } else if class == 0xB {
        Ok(Instr::JpV0(nnn))
    } else if class == 0xC {
        Ok(Instr::Rnd(x, kk))
    } else if class == 0xD {
        Ok(Instr::Drw(x, y, n))
    } else if class == 0xF {
        if kk == 0x07 {
            Ok(Instr::LdVxDt(x))
        } else if kk == 0x15 {
            Ok(Instr::LdDtVx(x))
        } else if kk == 0x18 {
            Ok(Instr::LdStVx(x))
        } else if kk == 0x1E {
            Ok(Instr::AddI(x))
        } else {
            Err(Fault::UnimplementedOpcode)
        }
    } else {
        Err(Fault::UnimplementedOpcode)
    }
}

/// Bounds of the fields packed in an instruction word.
pub proof fn lemma_field_bounds(word: u16)
    by (bit_vector)
    ensures
        (word >> 8) & 0xF < 16,
        (word >> 4) & 0xF < 16,
        word & 0xF < 16,
        word & 0xFF < 256,
        word & 0x0FFF < 4096,
{
}

/// Decode one instruction word into the closed tagged form the dispatcher
/// matches on.
pub fn decode(word: u16) -> (r: Result<Instr, Fault>)
    ensures
        r == spec_decode(word),
{
    proof {
        lemma_field_bounds(word);
    }
    let class = word >> 12;
    let x = ((word >> 8) & 0xF) as u8;
    let y = ((word >> 4) & 0xF) as u8;
    let kk = (word & 0xFF) as u8;
    let nnn = word & 0x0FFF;
    let n = (word & 0xF) as u8;
    if class == 0x0 {
        if word == 0x00E0 {
            Ok(Instr::Cls)
        } else if word == 0x00EE {
            Ok(Instr::Ret)
        } else {
            Err(Fault::UnimplementedOpcode)
        }
    } else if class == 0x1 {
        Ok(Instr::Jp(nnn))
    } else if class == 0x2 {
        Ok(Instr::Call(nnn))
    } else if class == 0x3 {
        Ok(Instr::SeImm(x, kk))
    } else if class == 0x4 {
        Ok(Instr::SneImm(x, kk))
    } else if class == 0x5 {
        if n == 0 {
            Ok(Instr::SeReg(x, y))
        } else {
            Err(Fault::InvalidEncoding)
        }
    } else if class == 0x6 {
        Ok(Instr::LdImm(x, kk))
    } else if class == 0x7 {
        Ok(Instr::AddImm(x, kk))
    } else if class == 0x8 {
        if n == 0x0 {
            Ok(Instr::LdReg(x, y))
        } else if n == 0x1 {
            Ok(Instr::Or(x, y))
        } else if n == 0x2 {
            Ok(Instr::And(x, y))
        } else if n == 0x3 {
            Ok(Instr::Xor(x, y))
        } else if n == 0x4 {
            Ok(Instr::AddReg(x, y))
        } else if n == 0x5 {
            Ok(Instr::SubReg(x, y))
        } else if n == 0x6 {
            Ok(Instr::Shr(x, y))
        } else if n == 0x7 {
            Ok(Instr::SubN(x, y))
        } else if n == 0xE {
            Ok(Instr::Shl(x, y))
        } else {
            Err(Fault::UnimplementedOpcode)
        }
    } else if class == 0x9 {
        if n == 0 {
            Ok(Instr::SneReg(x, y))
        } else {
            Err(Fault::InvalidEncoding)
        }
    } else if class == 0xA {
        Ok(Instr::LdI(nnn))
    } else if class == 0xB {
        Ok(Instr::JpV0(nnn))
    } else if class == 0xC {
        Ok(Instr::Rnd(x, kk))
    } else if class == 0xD {
        Ok(Instr::Drw(x, y, n))
    } else if class == 0xF {
        if kk == 0x07 {
            Ok(Instr::LdVxDt(x))
        } else if kk == 0x15 {
            Ok(Instr::LdDtVx(x))
        } else if kk == 0x18 {
            Ok(Instr::LdStVx(x))
        } else if kk == 0x1E {
            Ok(Instr::AddI(x))
        } else {
            Err(Fault::UnimplementedOpcode)
        }
    } else {
        Err(Fault::UnimplementedOpcode)
    }
}

/// Register indices packed in a word are register-file indices, and the low
/// 12 bits fit the address space.
pub proof fn lemma_decode_fields_bounded(word: u16)
    ensures
        match spec_decode(word) {
            Ok(ins) => match ins {
                Instr::Jp(nnn) => nnn < 4096,
                Instr::Call(nnn) => nnn < 4096,
                Instr::SeImm(x, _) => x < 16,
                Instr::SneImm(x, _) => x < 16,
                Instr::SeReg(x, y) => x < 16 && y < 16,
                Instr::LdImm(x, _) => x < 16,
                Instr::AddImm(x, _) => x < 16,
                Instr::LdReg(x, y) => x < 16 && y < 16,
                Instr::Or(x, y) => x < 16 && y < 16,
                Instr::And(x, y) => x < 16 && y < 16,
                Instr::Xor(x, y) => x < 16 && y < 16,
                Instr::AddReg(x, y) => x < 16 && y < 16,
                Instr::SubReg(x, y) => x < 16 && y < 16,
                Instr::Shr(x, y) => x < 16 && y < 16,
                Instr::SubN(x, y) => x < 16 && y < 16,
                Instr::Shl(x, y) => x < 16 && y < 16,
                Instr::SneReg(x, y) => x < 16 && y < 16,
                Instr::LdI(nnn) => nnn < 4096,
                Instr::JpV0(nnn) => nnn < 4096,
                Instr::Rnd(x, _) => x < 16,
                Instr::Drw(x, y, n) => x < 16 && y < 16 && n < 16,
                Instr::LdVxDt(x) => x < 16,
                Instr::LdDtVx(x) => x < 16,
                Instr::LdStVx(x) => x < 16,
                Instr::AddI(x) => x < 16,
                _ => true,
            },
            Err(_) => true,
        },
{
    lemma_field_bounds(word);
}

} // verus!
