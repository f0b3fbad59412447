//! Decoding of 16-bit instruction words into typed instruction values.
//!
//! The decoder is a pure function of the word: it splits the word into
//! four 4-bit fields plus a derived 12-bit address field and maps it to
//! one of the instruction kinds below, or reports the word as
//! unsupported.  `spec_decode` is the defining table; `decode_instr`
//! computes it.

use vstd::prelude::*;

use crate::cpu::CPU;
use crate::cpu::MEMSIZE;

verus! {

/// One decoded instruction, carrying only the operand fields that its
/// execution needs: register indices `x`/`y` (0..15), an immediate byte
/// `kk`, a 12-bit address `nnn`, or a 4-bit sprite height `n`.
#[derive(Clone, Copy, Debug, PartialEq, Eq, Structural)]
pub enum Instr {
    /// 0nnn with nnn >= 0x100: machine-code call, treated as a no-op.
    Sys { nnn: u16 },
    /// 00E0: clear-screen request, treated as a no-op in this core.
    Cls,
    /// 00EE: return from subroutine.
    Ret,
    /// 1nnn: jump; a jump to its own address halts the program.
    Jp { nnn: u16 },
    /// 2nnn: call subroutine.
    Call { nnn: u16 },
    /// 3xkk: skip next instruction if Vx == kk.
    SeVal { x: u8, kk: u8 },
    /// 4xkk: skip next instruction if Vx != kk.
    SneVal { x: u8, kk: u8 },
    /// 5xy0: skip next instruction if Vx == Vy.
    SeReg { x: u8, y: u8 },
    /// 6xkk: Vx = kk.
    LdVal { x: u8, kk: u8 },
    /// 7xkk: Vx = Vx + kk wrapping, no flag.
    AddVal { x: u8, kk: u8 },
    /// 8xy0: Vx = Vy.
    LdReg { x: u8, y: u8 },
    /// 8xy1: Vx = Vx | Vy.
    Or { x: u8, y: u8 },
    /// 8xy2: Vx = Vx & Vy.
    And { x: u8, y: u8 },
    /// 8xy3: Vx = Vx ^ Vy.
    Xor { x: u8, y: u8 },
    /// 8xy4: Vx = Vx + Vy wrapping, VF = carry.
    Add { x: u8, y: u8 },
    /// 8xy5: Vx = Vx - Vy wrapping, VF = 1 iff no borrow.
    Sub { x: u8, y: u8 },
    /// 8xy6: Vx = Vx >> 1, VF = the bit shifted out.
    Shr { x: u8, y: u8 },
    /// 8xy7: Vx = Vy - Vx wrapping, VF = 1 iff no borrow.
    Subn { x: u8, y: u8 },
    /// 8xyE: Vx = Vx << 1, VF = the bit shifted out.
    Shl { x: u8, y: u8 },
    /// 9xyn: skip next instruction if Vx != Vy (low nibble ignored).
    SneReg { x: u8, y: u8 },
    /// Annn: I = nnn.
    LdI { nnn: u16 },
    /// Bnnn: jump to nnn + V0.
    JpV0 { nnn: u16 },
    /// Cxkk: Vx = random byte AND kk.
    Rnd { x: u8, kk: u8 },
    /// Dxyn: draw the n-byte sprite at memory I at position (Vx, Vy).
    Drw { x: u8, y: u8, n: u8 },
    /// Ex9E: skip next instruction if the key numbered by Vx is pressed.
    Skp { x: u8 },
    /// ExA1: skip next instruction if the key numbered by Vx is not pressed.
    Sknp { x: u8 },
    /// Fx07: Vx = delay timer.
    LdDt { x: u8 },
    /// Fx0A: wait for a key press, then store its index in Vx.
    LdKey { x: u8 },
    /// Fx15: delay timer = Vx.
    StDt { x: u8 },
    /// Fx18: sound timer = Vx.
    StSt { x: u8 },
    /// Fx1E: I = I + Vx wrapping.
    AddI { x: u8 },
    /// Fx29: I = font-glyph base address of the digit in Vx.
    LdFont { x: u8 },
    /// Fx33: memory[I..I+3] = the three decimal digits of Vx.
    StBcd { x: u8 },
    /// Fx55: memory[I..I+x+1] = V0..Vx.
    StRegs { x: u8 },
    /// Fx65: V0..Vx = memory[I..I+x+1].
    LdRegs { x: u8 },
}

/// Decoding failure: no pattern of the instruction table matches.
#[derive(Clone, Copy, Debug, PartialEq, Eq, Structural)]
pub enum DecodeError {
    /// Carries the raw instruction word that matched no pattern.
    UnsupportedOpcode { word: u16 },
}

/// The instruction table: what each 16-bit word decodes to.
pub open spec fn spec_decode(w: u16) -> Result<Instr, DecodeError> {
    let fam = w >> 12;
    let x = ((w >> 8) & 0xF) as u8;
    let y = ((w >> 4) & 0xF) as u8;
    let n = (w & 0xF) as u8;
    let kk = (w & 0xFF) as u8;
    let nnn = w & 0xFFF;
    if fam == 0x0 {
        if x == 0 {
            if kk == 0xE0 {
                Result::Ok(Instr::Cls)
            } else if kk == 0xEE {
                Result::Ok(Instr::Ret)
            } else {
                Result::Err(DecodeError::UnsupportedOpcode { word: w })
            }
        } else {
            Result::Ok(Instr::Sys { nnn })
        }
    } else if fam == 0x1 {
        Result::Ok(Instr::Jp { nnn })
    } else if fam == 0x2 {
        Result::Ok(Instr::Call { nnn })
    } else if fam == 0x3 {
        Result::Ok(Instr::SeVal { x, kk })
    } else if fam == 0x4 {
        Result::Ok(Instr::SneVal { x, kk })
    } else if fam == 0x5 {
        if n == 0 {
            Result::Ok(Instr::SeReg { x, y })
        } else {
            Result::Err(DecodeError::UnsupportedOpcode { word: w })
        }
    } else if fam == 0x6 {
        Result::Ok(Instr::LdVal { x, kk })
    } else if fam == 0x7 {
        Result::Ok(Instr::AddVal { x, kk })
    } else if fam == 0x8 {
        if n == 0x0 {
            Result::Ok(Instr::LdReg { x, y })
        } else if n == 0x1 {
            Result::Ok(Instr::Or { x, y })
        } else if n == 0x2 {
            Result::Ok(Instr::And { x, y })
        } else if n == 0x3 {
            Result::Ok(Instr::Xor { x, y })
        } else if n == 0x4 {
            Result::Ok(Instr::Add { x, y })
        } else if n == 0x5 {
            Result::Ok(Instr::Sub { x, y })
        } else if n == 0x6 {
            Result::Ok(Instr::Shr { x, y })
        } else if n == 0x7 {
            Result::Ok(Instr::Subn { x, y })
        } else if n == 0xE {
            Result::Ok(Instr::Shl { x, y })
        } else {
            Result::Err(DecodeError::UnsupportedOpcode { word: w })
        }
    } else if fam == 0x9 {
        Result::Ok(Instr::SneReg { x, y })
    } else if fam == 0xA {
        Result::Ok(Instr::LdI { nnn })
    } else if fam == 0xB {
        Result::Ok(Instr::JpV0 { nnn })
    } else if fam == 0xC {
        Result::Ok(Instr::Rnd { x, kk })
    } else if fam == 0xD {
        Result::Ok(Instr::Drw { x, y, n })
    } else if fam == 0xE {
        if kk == 0x9E {
            Result::Ok(Instr::Skp { x })
        } else if kk == 0xA1 {
            Result::Ok(Instr::Sknp { x })
        } else {
            Result::Err(DecodeError::UnsupportedOpcode { word: w })
        }
    } else {
        if kk == 0x07 {
            Result::Ok(Instr::LdDt { x })
        } else if kk == 0x0A {
            Result::Ok(Instr::LdKey { x })
        } else if kk == 0x15 {
            Result::Ok(Instr::StDt { x })
        } else if kk == 0x18 {
            Result::Ok(Instr::StSt { x })
        } else if kk == 0x1E {
            Result::Ok(Instr::AddI { x })
        } else if kk == 0x29 {
            Result::Ok(Instr::LdFont { x })
        } else if kk == 0x33 {
            Result::Ok(Instr::StBcd { x })
        } else if kk == 0x55 {
            Result::Ok(Instr::StRegs { x })
        } else if kk == 0x65 {
            Result::Ok(Instr::LdRegs { x })
        } else {
            Result::Err(DecodeError::UnsupportedOpcode { word: w })
        }
    }
}

/// Operand fields of a decoded instruction lie in their encoded ranges.
pub open spec fn instr_wf(ins: Instr) -> bool {
    match ins {
        Instr::Sys { nnn } => 0x100 <= nnn < 0x1000,
        Instr::Cls => true,
        Instr::Ret => true,
        Instr::Jp { nnn } => nnn < 0x1000,
        Instr::Call { nnn } => nnn < 0x1000,
        Instr::SeVal { x, kk } => x < 16,
        Instr::SneVal { x, kk } => x < 16,
        Instr::SeReg { x, y } => x < 16 && y < 16,
        Instr::LdVal { x, kk } => x < 16,
        Instr::AddVal { x, kk } => x < 16,
        Instr::LdReg { x, y } => x < 16 && y < 16,
        Instr::Or { x, y } => x < 16 && y < 16,
        Instr::And { x, y } => x < 16 && y < 16,
        Instr::Xor { x, y } => x < 16 && y < 16,
        Instr::Add { x, y } => x < 16 && y < 16,
        Instr::Sub { x, y } => x < 16 && y < 16,
        Instr::Shr { x, y } => x < 16 && y < 16,
        Instr::Subn { x, y } => x < 16 && y < 16,
        Instr::Shl { x, y } => x < 16 && y < 16,
        Instr::SneReg { x, y } => x < 16 && y < 16,
        Instr::LdI { nnn } => nnn < 0x1000,
        Instr::JpV0 { nnn } => nnn < 0x1000,
        Instr::Rnd { x, kk } => x < 16,
        Instr::Drw { x, y, n } => x < 16 && y < 16 && n < 16,
        Instr::Skp { x } => x < 16,
        Instr::Sknp { x } => x < 16,
        Instr::LdDt { x } => x < 16,
        Instr::LdKey { x } => x < 16,
        Instr::StDt { x } => x < 16,
        Instr::StSt { x } => x < 16,
        Instr::AddI { x } => x < 16,
        Instr::LdFont { x } => x < 16,
        Instr::StBcd { x } => x < 16,
        Instr::StRegs { x } => x < 16,
        Instr::LdRegs { x } => x < 16,
    }
}

/// Every instruction the decoder accepts has well-formed operand fields.
pub proof fn lemma_decode_wf(w: u16)
    ensures
        spec_decode(w) matches Result::Ok(ins) ==> instr_wf(ins),
{
    assert(((w >> 8) & 0xF) < 16 && ((w >> 4) & 0xF) < 16 && (w & 0xF) < 16 && (w & 0xFFF)
        < 0x1000) by (bit_vector);
    assert((w >> 12) == 0 && ((w >> 8) & 0xF) != 0 ==> (w & 0xFFF) >= 0x100) by (bit_vector);
}

/// The canonical word encoding an instruction: the inverse of the
/// decoder.  For the kinds whose pattern leaves bits free (SneReg's low
/// nibble), the free bits are zero.
pub open spec fn encode(ins: Instr) -> u16 {
    match ins {
        Instr::Sys { nnn } => nnn,
        Instr::Cls => 0x00E0,
        Instr::Ret => 0x00EE,
        Instr::Jp { nnn } => ((0x1u16) << 12) | nnn,
        Instr::Call { nnn } => ((0x2u16) << 12) | nnn,
        Instr::SeVal { x, kk } => ((0x3u16) << 12) | ((x as u16) << 8) | (kk as u16),
        Instr::SneVal { x, kk } => ((0x4u16) << 12) | ((x as u16) << 8) | (kk as u16),
        Instr::SeReg { x, y } => ((0x5u16) << 12) | ((x as u16) << 8) | ((y as u16) << 4) | 0x0,
        Instr::LdVal { x, kk } => ((0x6u16) << 12) | ((x as u16) << 8) | (kk as u16),
        Instr::AddVal { x, kk } => ((0x7u16) << 12) | ((x as u16) << 8) | (kk as u16),
        Instr::LdReg { x, y } => ((0x8u16) << 12) | ((x as u16) << 8) | ((y as u16) << 4) | 0x0,
        Instr::Or { x, y } => ((0x8u16) << 12) | ((x as u16) << 8) | ((y as u16) << 4) | 0x1,
        Instr::And { x, y } => ((0x8u16) << 12) | ((x as u16) << 8) | ((y as u16) << 4) | 0x2,
        Instr::Xor { x, y } => ((0x8u16) << 12) | ((x as u16) << 8) | ((y as u16) << 4) | 0x3,
        Instr::Add { x, y } => ((0x8u16) << 12) | ((x as u16) << 8) | ((y as u16) << 4) | 0x4,
        Instr::Sub { x, y } => ((0x8u16) << 12) | ((x as u16) << 8) | ((y as u16) << 4) | 0x5,
        Instr::Shr { x, y } => ((0x8u16) << 12) | ((x as u16) << 8) | ((y as u16) << 4) | 0x6,
        Instr::Subn { x, y } => ((0x8u16) << 12) | ((x as u16) << 8) | ((y as u16) << 4) | 0x7,
        Instr::Shl { x, y } => ((0x8u16) << 12) | ((x as u16) << 8) | ((y as u16) << 4) | 0xE,
        Instr::SneReg { x, y } => ((0x9u16) << 12) | ((x as u16) << 8) | ((y as u16) << 4) | 0x0,
        Instr::LdI { nnn } => ((0xAu16) << 12) | nnn,
        Instr::JpV0 { nnn } => ((0xBu16) << 12) | nnn,
        Instr::Rnd { x, kk } => ((0xCu16) << 12) | ((x as u16) << 8) | (kk as u16),
        Instr::Drw { x, y, n } => ((0xDu16) << 12) | ((x as u16) << 8) | ((y as u16) << 4) | (
        n as u16),
        Instr::Skp { x } => ((0xEu16) << 12) | ((x as u16) << 8) | 0x9E,
        Instr::Sknp { x } => ((0xEu16) << 12) | ((x as u16) << 8) | 0xA1,
        Instr::LdDt { x } => ((0xFu16) << 12) | ((x as u16) << 8) | 0x07,
        Instr::LdKey { x } => ((0xFu16) << 12) | ((x as u16) << 8) | 0x0A,
        Instr::StDt { x } => ((0xFu16) << 12) | ((x as u16) << 8) | 0x15,
        Instr::StSt { x } => ((0xFu16) << 12) | ((x as u16) << 8) | 0x18,
        Instr::AddI { x } => ((0xFu16) << 12) | ((x as u16) << 8) | 0x1E,
        Instr::LdFont { x } => ((0xFu16) << 12) | ((x as u16) << 8) | 0x29,
        Instr::StBcd { x } => ((0xFu16) << 12) | ((x as u16) << 8) | 0x33,
        Instr::StRegs { x } => ((0xFu16) << 12) | ((x as u16) << 8) | 0x55,
        Instr::LdRegs { x } => ((0xFu16) << 12) | ((x as u16) << 8) | 0x65,
    }
}

/// How the four fields of a packed word read back out.
proof fn lemma_pack_nibbles(f: u16, x: u16, y: u16, n: u16)
    by (bit_vector)
    requires
        f < 16,
        x < 16,
        y < 16,
        n < 16,
    ensures
        ((f << 12) | (x << 8) | (y << 4) | n) >> 12 == f,
        (((f << 12) | (x << 8) | (y << 4) | n) >> 8) & 0xF == x,
        (((f << 12) | (x << 8) | (y << 4) | n) >> 4) & 0xF == y,
        ((f << 12) | (x << 8) | (y << 4) | n) & 0xF == n,
        ((f << 12) | (x << 8) | (y << 4) | n) & 0xFFF == (x << 8) | (y << 4) | n,
{
}

/// How a packed word with an immediate byte reads back out.
proof fn lemma_pack_byte(f: u16, x: u16, kk: u16)
    by (bit_vector)
    requires
        f < 16,
        x < 16,
        kk < 256,
    ensures
        ((f << 12) | (x << 8) | kk) >> 12 == f,
        (((f << 12) | (x << 8) | kk) >> 8) & 0xF == x,
        ((f << 12) | (x << 8) | kk) & 0xFF == kk,
{
}

/// How a packed word with a 12-bit address reads back out.
proof fn lemma_pack_addr(f: u16, nnn: u16)
    by (bit_vector)
    requires
        f < 16,
        nnn < 0x1000,
    ensures
        ((f << 12) | nnn) >> 12 == f,
        ((f << 12) | nnn) & 0xFFF == nnn,
        (((f << 12) | nnn) >> 8) & 0xF == nnn >> 8,
        nnn >= 0x100 ==> nnn >> 8 != 0,
{
}

/// Round trip over the encoding: decoding the word that encodes an
/// instruction yields back exactly that instruction, operand fields
/// included, for every well-formed instruction.
pub proof fn lemma_decode_encode(ins: Instr)
    requires
        instr_wf(ins),
    ensures
        spec_decode(encode(ins)) == Result::<Instr, DecodeError>::Ok(ins),
{
    match ins {
        Instr::Sys { nnn } => {
            assert(nnn >> 12 == 0 && ((nnn >> 8) & 0xF) == nnn >> 8 && nnn & 0xFFF == nnn
                && nnn >> 8 != 0 && ((nnn >> 8) & 0xF) < 16) by (bit_vector)
                requires
                    0x100 <= nnn < 0x1000,
            ;
        },
        Instr::Cls => {
            assert(0x00E0u16 >> 12 == 0 && (0x00E0u16 >> 8) & 0xF == 0 && 0x00E0u16 & 0xFF
                == 0xE0) by (bit_vector);
        },
        Instr::Ret => {
            assert(0x00EEu16 >> 12 == 0 && (0x00EEu16 >> 8) & 0xF == 0 && 0x00EEu16 & 0xFF
                == 0xEE) by (bit_vector);
        },
        Instr::Jp { nnn } => lemma_pack_addr(0x1, nnn),
        Instr::Call { nnn } => lemma_pack_addr(0x2, nnn),
        Instr::SeVal { x, kk } => lemma_pack_byte(0x3, x as u16, kk as u16),
        Instr::SneVal { x, kk } => lemma_pack_byte(0x4, x as u16, kk as u16),
        Instr::SeReg { x, y } => lemma_pack_nibbles(0x5, x as u16, y as u16, 0x0),
        Instr::LdVal { x, kk } => lemma_pack_byte(0x6, x as u16, kk as u16),
        Instr::AddVal { x, kk } => lemma_pack_byte(0x7, x as u16, kk as u16),
        Instr::LdReg { x, y } => lemma_pack_nibbles(0x8, x as u16, y as u16, 0x0),
        Instr::Or { x, y } => lemma_pack_nibbles(0x8, x as u16, y as u16, 0x1),
        Instr::And { x, y } => lemma_pack_nibbles(0x8, x as u16, y as u16, 0x2),
        Instr::Xor { x, y } => lemma_pack_nibbles(0x8, x as u16, y as u16, 0x3),
        Instr::Add { x, y } => lemma_pack_nibbles(0x8, x as u16, y as u16, 0x4),
        Instr::Sub { x, y } => lemma_pack_nibbles(0x8, x as u16, y as u16, 0x5),
        Instr::Shr { x, y } => lemma_pack_nibbles(0x8, x as u16, y as u16, 0x6),
        Instr::Subn { x, y } => lemma_pack_nibbles(0x8, x as u16, y as u16, 0x7),
        Instr::Shl { x, y } => lemma_pack_nibbles(0x8, x as u16, y as u16, 0xE),
        Instr::SneReg { x, y } => lemma_pack_nibbles(0x9, x as u16, y as u16, 0x0),
        Instr::LdI { nnn } => lemma_pack_addr(0xA, nnn),
        Instr::JpV0 { nnn } => lemma_pack_addr(0xB, nnn),
        Instr::Rnd { x, kk } => lemma_pack_byte(0xC, x as u16, kk as u16),
        Instr::Drw { x, y, n } => lemma_pack_nibbles(0xD, x as u16, y as u16, n as u16),
        Instr::Skp { x } => lemma_pack_byte(0xE, x as u16, 0x9E),
        Instr::Sknp { x } => lemma_pack_byte(0xE, x as u16, 0xA1),
        Instr::LdDt { x } => lemma_pack_byte(0xF, x as u16, 0x07),
        Instr::LdKey { x } => lemma_pack_byte(0xF, x as u16, 0x0A),
        Instr::StDt { x } => lemma_pack_byte(0xF, x as u16, 0x15),
        Instr::StSt { x } => lemma_pack_byte(0xF, x as u16, 0x18),
        Instr::AddI { x } => lemma_pack_byte(0xF, x as u16, 0x1E),
        Instr::LdFont { x } => lemma_pack_byte(0xF, x as u16, 0x29),
        Instr::StBcd { x } => lemma_pack_byte(0xF, x as u16, 0x33),
        Instr::StRegs { x } => lemma_pack_byte(0xF, x as u16, 0x55),
        Instr::LdRegs { x } => lemma_pack_byte(0xF, x as u16, 0x65),
    }
}

impl CPU {
    /// Decode one instruction word, per the instruction table.
    pub fn decode_instr(w: u16) -> (r: Result<Instr, DecodeError>)
        ensures
            r == spec_decode(w),
            r matches Result::Ok(ins) ==> instr_wf(ins),
    {
        proof {
            lemma_decode_wf(w);
        }
        let fam = w >> 12u16;
        let x = ((w >> 8u16) & 0xF) as u8;
        let y = ((w >> 4u16) & 0xF) as u8;
        let n = (w & 0xF) as u8;
        let kk = (w & 0xFF) as u8;
        let nnn = w & 0xFFF;
        if fam == 0x0 {
            if x == 0 {
                if kk == 0xE0 {
                    Result::Ok(Instr::Cls)
                } else if kk == 0xEE {
                    Result::Ok(Instr::Ret)
                } else {
                    Result::Err(DecodeError::UnsupportedOpcode { word: w })
                }
            } else {
                Result::Ok(Instr::Sys { nnn })
            }
        } else if fam == 0x1 {
            Result::Ok(Instr::Jp { nnn })
        } else if fam == 0x2 {
            Result::Ok(Instr::Call { nnn })
        } else if fam == 0x3 {
            Result::Ok(Instr::SeVal { x, kk })
        } else if fam == 0x4 {
            Result::Ok(Instr::SneVal { x, kk })
        } else if fam == 0x5 {
            if n == 0 {
                Result::Ok(Instr::SeReg { x, y })
            } else {
                Result::Err(DecodeError::UnsupportedOpcode { word: w })
            }
        } else if fam == 0x6 {
            Result::Ok(Instr::LdVal { x, kk })
        } else if fam == 0x7 {
            Result::Ok(Instr::AddVal { x, kk })
        } else if fam == 0x8 {
            if n == 0x0 {
                Result::Ok(Instr::LdReg { x, y })
            } else if n == 0x1 {
                Result::Ok(Instr::Or { x, y })
            } else if n == 0x2 {
                Result::Ok(Instr::And { x, y })
            } else if n == 0x3 {
                Result::Ok(Instr::Xor { x, y })
            } else if n == 0x4 {
                Result::Ok(Instr::Add { x, y })
            } else if n == 0x5 {
                Result::Ok(Instr::Sub { x, y })
            } else if n == 0x6 {
                Result::Ok(Instr::Shr { x, y })
            } else if n == 0x7 {
                Result::Ok(Instr::Subn { x, y })
            } else if n == 0xE {
                Result::Ok(Instr::Shl { x, y })
            } else {
                Result::Err(DecodeError::UnsupportedOpcode { word: w })
            }
        } else if fam == 0x9 {
            Result::Ok(Instr::SneReg { x, y })
        } else if fam == 0xA {
            Result::Ok(Instr::LdI { nnn })
        } else if fam == 0xB {
            Result::Ok(Instr::JpV0 { nnn })
        } else if fam == 0xC {
            Result::Ok(Instr::Rnd { x, kk })
        } else if fam == 0xD {
            Result::Ok(Instr::Drw { x, y, n })
        } else if fam == 0xE {
            if kk == 0x9E {
                Result::Ok(Instr::Skp { x })
            } else if kk == 0xA1 {
                Result::Ok(Instr::Sknp { x })
            } else {
                Result::Err(DecodeError::UnsupportedOpcode { word: w })
            }
        } else {
            if kk == 0x07 {
                Result::Ok(Instr::LdDt { x })
            } else if kk == 0x0A {
                Result::Ok(Instr::LdKey { x })
            } else if kk == 0x15 {
                Result::Ok(Instr::StDt { x })
            } else if kk == 0x18 {
                Result::Ok(Instr::StSt { x })
            } else if kk == 0x1E {
                Result::Ok(Instr::AddI { x })
            } else if kk == 0x29 {
                Result::Ok(Instr::LdFont { x })
            } else if kk == 0x33 {
                Result::Ok(Instr::StBcd { x })
            } else if kk == 0x55 {
                Result::Ok(Instr::StRegs { x })
            } else if kk == 0x65 {
                Result::Ok(Instr::LdRegs { x })
            } else {
                Result::Err(DecodeError::UnsupportedOpcode { word: w })
            }
        }
    }

    /// Fetch the word at the program counter and decode it.
    pub fn fetch_instr_from_pc(&self) -> (r: Result<Instr, DecodeError>)
        requires
            self.wf(),
            self@.pc + 1 < MEMSIZE,
        ensures
            r == spec_decode(CPU::spec_word_at(self@.mem, self@.pc as int)),
            r matches Result::Ok(ins) ==> instr_wf(ins),
    {
        let w = self.fetch_instr_from_addr(self.pc as usize);
        CPU::decode_instr(w)
    }
}

} // verus!
