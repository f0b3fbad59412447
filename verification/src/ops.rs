//! Instruction semantics: what each decoded instruction does to the
//! machine state.
//!
//! Each `sp_*` spec function is the defining semantics of one
//! instruction kind; each `op_*` method computes it.  Program-counter
//! policy: an instruction advances the counter by 2, by 4 on a taken
//! skip, or sets it directly on a jump, call or return.

use vstd::prelude::*;

use crate::cpu::CPU;
use crate::cpu::CpuSnap;
use crate::cpu::MEMSIZE;
use crate::cpu::STACK_LIMIT;

verus! {

/// A reported, recoverable failure of one execution step.
#[derive(Clone, Copy, Debug, PartialEq, Eq, Structural)]
pub enum StepError {
    /// The fetched word matches no instruction pattern; the counter is
    /// left unchanged (documented recovery policy: the caller decides).
    UnsupportedOpcode { word: u16 },
    /// A call would push a seventeenth return address; the machine is
    /// left unchanged.
    CallStackOverflow,
    /// A return found the stack empty; the machine halts (documented
    /// recovery policy) and the counter is left unchanged.
    EmptyStackReturn,
    /// A memory-block operation would reach past the 4096 bytes; the
    /// machine is left unchanged.
    OutOfRangeAccess,
}

/// Advance the program counter by two, or by four on a taken skip.
pub open spec fn sp_skip(s: CpuSnap, taken: bool) -> CpuSnap {
    if taken {
        CpuSnap { pc: (s.pc + 4) as u16, ..s }
    } else {
        CpuSnap { pc: (s.pc + 2) as u16, ..s }
    }
}

/// SYS and CLS: no effect but the ordinary advance.
pub open spec fn sp_nop(s: CpuSnap) -> CpuSnap {
    CpuSnap { pc: (s.pc + 2) as u16, ..s }
}

/// JP nnn; a jump to the current address signals the end of the program.
pub open spec fn sp_jp(s: CpuSnap, nnn: u16) -> CpuSnap {
    CpuSnap { pc: nnn, halted: s.halted || nnn == s.pc, ..s }
}

/// JP V0, nnn.
pub open spec fn sp_jp_v0(s: CpuSnap, nnn: u16) -> CpuSnap {
    CpuSnap { pc: (s.v[0] + nnn) as u16, ..s }
}

/// SE Vx, kk.
pub open spec fn sp_se_val(s: CpuSnap, x: u8, kk: u8) -> CpuSnap {
    sp_skip(s, s.v[x as int] == kk)
}

/// SNE Vx, kk.
pub open spec fn sp_sne_val(s: CpuSnap, x: u8, kk: u8) -> CpuSnap {
    sp_skip(s, s.v[x as int] != kk)
}

/// SE Vx, Vy.
pub open spec fn sp_se_reg(s: CpuSnap, x: u8, y: u8) -> CpuSnap {
    sp_skip(s, s.v[x as int] == s.v[y as int])
}

/// SNE Vx, Vy.
pub open spec fn sp_sne_reg(s: CpuSnap, x: u8, y: u8) -> CpuSnap {
    sp_skip(s, s.v[x as int] != s.v[y as int])
}

/// LD Vx, kk.
pub open spec fn sp_ld_val(s: CpuSnap, x: u8, kk: u8) -> CpuSnap {
    CpuSnap { pc: (s.pc + 2) as u16, v: s.v.update(x as int, kk), ..s }
}

/// ADD Vx, kk: wrapping, and no flag effect.
pub open spec fn sp_add_val(s: CpuSnap, x: u8, kk: u8) -> CpuSnap {
    CpuSnap {
        pc: (s.pc + 2) as u16,
        v: s.v.update(x as int, ((s.v[x as int] + kk) % 256) as u8),
        ..s
    }
}

/// LD Vx, Vy.
pub open spec fn sp_ld_reg(s: CpuSnap, x: u8, y: u8) -> CpuSnap {
    CpuSnap { pc: (s.pc + 2) as u16, v: s.v.update(x as int, s.v[y as int]), ..s }
}

/// OR Vx, Vy: no flag effect.
pub open spec fn sp_or(s: CpuSnap, x: u8, y: u8) -> CpuSnap {
    CpuSnap { pc: (s.pc + 2) as u16, v: s.v.update(x as int, s.v[x as int] | s.v[y as int]), ..s }
}

/// AND Vx, Vy: no flag effect.
pub open spec fn sp_and(s: CpuSnap, x: u8, y: u8) -> CpuSnap {
    CpuSnap { pc: (s.pc + 2) as u16, v: s.v.update(x as int, s.v[x as int] & s.v[y as int]), ..s }
}

/// XOR Vx, Vy: no flag effect.
pub open spec fn sp_xor(s: CpuSnap, x: u8, y: u8) -> CpuSnap {
    CpuSnap { pc: (s.pc + 2) as u16, v: s.v.update(x as int, s.v[x as int] ^ s.v[y as int]), ..s }
}

/// ADD Vx, Vy: wrapping sum into Vx, then VF = 1 iff the sum overflowed
/// eight bits.  The flag write comes second, so it wins when x is 15.
pub open spec fn sp_add(s: CpuSnap, x: u8, y: u8) -> CpuSnap {
    let sum = s.v[x as int] + s.v[y as int];
    let flag: u8 = if sum > 255 {
        1
    } else {
        0
    };
    CpuSnap {
        pc: (s.pc + 2) as u16,
        v: s.v.update(x as int, (sum % 256) as u8).update(15, flag),
        ..s
    }
}

/// SUB Vx, Vy: wrapping difference into Vx, then VF = 1 iff no borrow
/// (Vx >= Vy before the subtraction).
pub open spec fn sp_sub(s: CpuSnap, x: u8, y: u8) -> CpuSnap {
    let flag: u8 = if s.v[x as int] >= s.v[y as int] {
        1
    } else {
        0
    };
    CpuSnap {
        pc: (s.pc + 2) as u16,
        v: s.v.update(x as int, ((s.v[x as int] - s.v[y as int]) % 256) as u8).update(15, flag),
        ..s
    }
}

/// SUBN Vx, Vy: Vy - Vx into Vx, same borrow convention as SUB.
pub open spec fn sp_subn(s: CpuSnap, x: u8, y: u8) -> CpuSnap {
    let flag: u8 = if s.v[y as int] >= s.v[x as int] {
        1
    } else {
        0
    };
    CpuSnap {
        pc: (s.pc + 2) as u16,
        v: s.v.update(x as int, ((s.v[y as int] - s.v[x as int]) % 256) as u8).update(15, flag),
        ..s
    }
}

/// SHR Vx: halve Vx, then VF = the least-significant bit shifted out.
pub open spec fn sp_shr(s: CpuSnap, x: u8) -> CpuSnap {
    CpuSnap {
        pc: (s.pc + 2) as u16,
        v: s.v.update(x as int, (s.v[x as int] / 2) as u8).update(15, (s.v[x as int] % 2) as u8),
        ..s
    }
}

/// SHL Vx: double Vx wrapping, then VF = the bit shifted out.
pub open spec fn sp_shl(s: CpuSnap, x: u8) -> CpuSnap {
    CpuSnap {
        pc: (s.pc + 2) as u16,
        v: s.v.update(x as int, ((s.v[x as int] * 2) % 256) as u8).update(
            15,
            (s.v[x as int] / 128) as u8,
        ),
        ..s
    }
}

/// LD I, nnn.
pub open spec fn sp_ld_i(s: CpuSnap, nnn: u16) -> CpuSnap {
    CpuSnap { pc: (s.pc + 2) as u16, i: nnn, ..s }
}

/// RND Vx, kk with the drawn byte `b`: Vx = b AND kk.
pub open spec fn sp_rnd(s: CpuSnap, x: u8, kk: u8, b: u8) -> CpuSnap {
    CpuSnap { pc: (s.pc + 2) as u16, v: s.v.update(x as int, b & kk), ..s }
}

/// SKP Vx: skip if the key numbered by the low nibble of Vx is pressed.
pub open spec fn sp_skp(s: CpuSnap, x: u8) -> CpuSnap {
    sp_skip(s, s.keys[(s.v[x as int] % 16) as int])
}

/// SKNP Vx: skip if that key is not pressed.
pub open spec fn sp_sknp(s: CpuSnap, x: u8) -> CpuSnap {
    sp_skip(s, !s.keys[(s.v[x as int] % 16) as int])
}

/// LD Vx, DT.
pub open spec fn sp_ld_dt(s: CpuSnap, x: u8) -> CpuSnap {
    CpuSnap { pc: (s.pc + 2) as u16, v: s.v.update(x as int, s.dt), ..s }
}

/// LD DT, Vx.
pub open spec fn sp_st_dt(s: CpuSnap, x: u8) -> CpuSnap {
    CpuSnap { pc: (s.pc + 2) as u16, dt: s.v[x as int], ..s }
}

/// LD ST, Vx.
pub open spec fn sp_st_st(s: CpuSnap, x: u8) -> CpuSnap {
    CpuSnap { pc: (s.pc + 2) as u16, st: s.v[x as int], ..s }
}

/// ADD I, Vx: wrapping, no flag effect.
pub open spec fn sp_add_i(s: CpuSnap, x: u8) -> CpuSnap {
    CpuSnap { pc: (s.pc + 2) as u16, i: ((s.i + s.v[x as int]) % 0x10000) as u16, ..s }
}

/// LD F, Vx: I = base address of the 5-byte font glyph for the digit in
/// the low nibble of Vx.
pub open spec fn sp_ld_font(s: CpuSnap, x: u8) -> CpuSnap {
    CpuSnap { pc: (s.pc + 2) as u16, i: (5 * (s.v[x as int] % 16)) as u16, ..s }
}

/// CALL nnn: push the address of the next instruction, jump to nnn; a
/// seventeenth frame is refused and the machine left unchanged.
pub open spec fn sp_call(s: CpuSnap, nnn: u16) -> (CpuSnap, Result<(), StepError>) {
    if s.stack.len() >= STACK_LIMIT {
        (s, Result::Err(StepError::CallStackOverflow))
    } else {
        (
            CpuSnap { pc: nnn, stack: s.stack.push((s.pc + 2) as u16), ..s },
            Result::Ok(()),
        )
    }
}

/// RET: pop the return address into the program counter; on an empty
/// stack the machine halts and reports, with the counter unchanged.
pub open spec fn sp_ret(s: CpuSnap) -> (CpuSnap, Result<(), StepError>) {
    if s.stack.len() == 0 {
        (CpuSnap { halted: true, ..s }, Result::Err(StepError::EmptyStackReturn))
    } else {
        (
            CpuSnap { pc: s.stack.last(), stack: s.stack.drop_last(), ..s },
            Result::Ok(()),
        )
    }
}

/// LD B, Vx: the three decimal digits of Vx written at I, I+1, I+2;
/// refused, machine unchanged, if they would not fit in memory.
pub open spec fn sp_bcd(s: CpuSnap, x: u8) -> (CpuSnap, Result<(), StepError>) {
    if s.i + 3 > MEMSIZE {
        (s, Result::Err(StepError::OutOfRangeAccess))
    } else {
        let val = s.v[x as int];
        (
            CpuSnap {
                pc: (s.pc + 2) as u16,
                mem: s.mem.update(s.i as int, (val / 100) as u8).update(
                    s.i + 1,
                    ((val / 10) % 10) as u8,
                ).update(s.i + 2, (val % 10) as u8),
                ..s
            },
            Result::Ok(()),
        )
    }
}

/// LD [I], Vx: registers V0 through Vx inclusive written at I onward;
/// refused, machine unchanged, if they would not fit in memory.
pub open spec fn sp_st_regs(s: CpuSnap, x: u8) -> (CpuSnap, Result<(), StepError>) {
    if s.i + x + 1 > MEMSIZE {
        (s, Result::Err(StepError::OutOfRangeAccess))
    } else {
        (
            CpuSnap {
                pc: (s.pc + 2) as u16,
                mem: Seq::new(
                    MEMSIZE as nat,
                    |a: int|
                        if s.i <= a <= s.i + x {
                            s.v[a - s.i]
                        } else {
                            s.mem[a]
                        },
                ),
                ..s
            },
            Result::Ok(()),
        )
    }
}

/// LD Vx, [I]: registers V0 through Vx inclusive read from I onward;
/// refused, machine unchanged, if the range reaches past memory.
pub open spec fn sp_ld_regs(s: CpuSnap, x: u8) -> (CpuSnap, Result<(), StepError>) {
    if s.i + x + 1 > MEMSIZE {
        (s, Result::Err(StepError::OutOfRangeAccess))
    } else {
        (
            CpuSnap {
                pc: (s.pc + 2) as u16,
                v: Seq::new(
                    16,
                    |r: int|
                        if r <= x {
                            s.mem[s.i + r]
                        } else {
                            s.v[r]
                        },
                ),
                ..s
            },
            Result::Ok(()),
        )
    }
}

impl CPU {
    /// SYS nnn and CLS: decoded, with no effect on this core's state.
    pub fn op_nop(&mut self)
        requires
            old(self).wf(),
            old(self)@.pc + 2 <= u16::MAX,
        ensures
            final(self).wf(),
            final(self)@ =~= sp_nop(old(self)@),
    {
        self.pc = self.pc + 2;
    }

    /// JP nnn.
    pub fn op_jp(&mut self, nnn: u16)
        requires
            old(self).wf(),
        ensures
            final(self).wf(),
            final(self)@ =~= sp_jp(old(self)@, nnn),
    {
        if self.pc == nnn {
            self.is_halted = true;
        }
        self.pc = nnn;
    }

    /// JP V0, nnn.
    pub fn op_jp_v0(&mut self, nnn: u16)
        requires
            old(self).wf(),
            old(self)@.v[0] + nnn <= u16::MAX,
        ensures
            final(self).wf(),
            final(self)@ =~= sp_jp_v0(old(self)@, nnn),
    {
        self.pc = self.vregs[0] as u16 + nnn;
    }

    /// SE Vx, kk.
    pub fn op_se_val(&mut self, x: u8, kk: u8)
        requires
            old(self).wf(),
            x < 16,
            old(self)@.pc + 4 <= u16::MAX,
        ensures
            final(self).wf(),
            final(self)@ =~= sp_se_val(old(self)@, x, kk),
    {
        if self.vregs[x as usize] == kk {
            self.pc = self.pc + 4;
        } else {
            self.pc = self.pc + 2;
        }
    }

    /// SNE Vx, kk.
    pub fn op_sne_val(&mut self, x: u8, kk: u8)
        requires
            old(self).wf(),
            x < 16,
            old(self)@.pc + 4 <= u16::MAX,
        ensures
            final(self).wf(),
            final(self)@ =~= sp_sne_val(old(self)@, x, kk),
    {
        if self.vregs[x as usize] != kk {
            self.pc = self.pc + 4;
        } else {
            self.pc = self.pc + 2;
        }
    }

    /// SE Vx, Vy.
    pub fn op_se_reg(&mut self, x: u8, y: u8)
        requires
            old(self).wf(),
            x < 16,
            y < 16,
            old(self)@.pc + 4 <= u16::MAX,
        ensures
            final(self).wf(),
            final(self)@ =~= sp_se_reg(old(self)@, x, y),
    {
        if self.vregs[x as usize] == self.vregs[y as usize] {
            self.pc = self.pc + 4;
        } else {
            self.pc = self.pc + 2;
        }
    }

    /// SNE Vx, Vy.
    pub fn op_sne_reg(&mut self, x: u8, y: u8)
        requires
            old(self).wf(),
            x < 16,
            y < 16,
            old(self)@.pc + 4 <= u16::MAX,
        ensures
            final(self).wf(),
            final(self)@ =~= sp_sne_reg(old(self)@, x, y),
    {
        if self.vregs[x as usize] != self.vregs[y as usize] {
            self.pc = self.pc + 4;
        } else {
            self.pc = self.pc + 2;
        }
    }

    /// LD Vx, kk.
    pub fn op_ld_val(&mut self, x: u8, kk: u8)
        requires
            old(self).wf(),
            x < 16,
            old(self)@.pc + 2 <= u16::MAX,
        ensures
            final(self).wf(),
            final(self)@ =~= sp_ld_val(old(self)@, x, kk),
    {
        self.vregs[x as usize] = kk;
        self.pc = self.pc + 2;
    }

    /// ADD Vx, kk: wrapping, no flag effect.
    pub fn op_add_val(&mut self, x: u8, kk: u8)
        requires
            old(self).wf(),
            x < 16,
            old(self)@.pc + 2 <= u16::MAX,
        ensures
            final(self).wf(),
            final(self)@ =~= sp_add_val(old(self)@, x, kk),
    {
        let sum: u16 = self.vregs[x as usize] as u16 + kk as u16;
        self.vregs[x as usize] = (sum % 256) as u8;
        self.pc = self.pc + 2;
    }

    /// LD Vx, Vy.
    pub fn op_ld_reg(&mut self, x: u8, y: u8)
        requires
            old(self).wf(),
            x < 16,
            y < 16,
            old(self)@.pc + 2 <= u16::MAX,
        ensures
            final(self).wf(),
            final(self)@ =~= sp_ld_reg(old(self)@, x, y),
    {
        self.vregs[x as usize] = self.vregs[y as usize];
        self.pc = self.pc + 2;
    }

    /// OR Vx, Vy.
    pub fn op_or(&mut self, x: u8, y: u8)
        requires
            old(self).wf(),
            x < 16,
            y < 16,
            old(self)@.pc + 2 <= u16::MAX,
        ensures
            final(self).wf(),
            final(self)@ =~= sp_or(old(self)@, x, y),
    {
        self.vregs[x as usize] = self.vregs[x as usize] | self.vregs[y as usize];
        self.pc = self.pc + 2;
    }

    /// AND Vx, Vy.
    pub fn op_and(&mut self, x: u8, y: u8)
        requires
            old(self).wf(),
            x < 16,
            y < 16,
            old(self)@.pc + 2 <= u16::MAX,
        ensures
            final(self).wf(),
            final(self)@ =~= sp_and(old(self)@, x, y),
    {
        self.vregs[x as usize] = self.vregs[x as usize] & self.vregs[y as usize];
        self.pc = self.pc + 2;
    }

    /// XOR Vx, Vy.
    pub fn op_xor(&mut self, x: u8, y: u8)
        requires
            old(self).wf(),
            x < 16,
            y < 16,
            old(self)@.pc + 2 <= u16::MAX,
        ensures
            final(self).wf(),
            final(self)@ =~= sp_xor(old(self)@, x, y),
    {
        self.vregs[x as usize] = self.vregs[x as usize] ^ self.vregs[y as usize];
        self.pc = self.pc + 2;
    }

    /// ADD Vx, Vy.  The result register takes the sum modulo 256 and the
    /// flag register takes 1 exactly when the sum exceeds 255, else 0;
    /// when x is the flag register itself, the flag write wins.
    pub fn op_add(&mut self, x: u8, y: u8)
        requires
            old(self).wf(),
            x < 16,
            y < 16,
            old(self)@.pc + 2 <= u16::MAX,
        ensures
            final(self).wf(),
            final(self)@ =~= sp_add(old(self)@, x, y),
            final(self)@.v[15] == (if old(self)@.v[x as int] + old(self)@.v[y as int] > 255 {
                1u8
            } else {
                0u8
            }),
            x != 15 ==> final(self)@.v[x as int] == ((old(self)@.v[x as int] + old(
                self,
            )@.v[y as int]) % 256) as u8,
    {
        let sum: u16 = self.vregs[x as usize] as u16 + self.vregs[y as usize] as u16;
        self.vregs[x as usize] = (sum % 256) as u8;
        self.vregs[15] = if sum > 255 {
            1
        } else {
            0
        };
        self.pc = self.pc + 2;
    }

    /// SUB Vx, Vy.  The result register takes Vx - Vy modulo 256 and the
    /// flag register takes 1 exactly when Vx >= Vy (no borrow), else 0;
    /// when x is the flag register itself, the flag write wins.
    pub fn op_sub(&mut self, x: u8, y: u8)
        requires
            old(self).wf(),
            x < 16,
            y < 16,
            old(self)@.pc + 2 <= u16::MAX,
        ensures
            final(self).wf(),
            final(self)@ =~= sp_sub(old(self)@, x, y),
            final(self)@.v[15] == (if old(self)@.v[x as int] >= old(self)@.v[y as int] {
                1u8
            } else {
                0u8
            }),
            x != 15 ==> final(self)@.v[x as int] == ((old(self)@.v[x as int] - old(
                self,
            )@.v[y as int]) % 256) as u8,
    {
        let a = self.vregs[x as usize];
        let b = self.vregs[y as usize];
        if a >= b {
            self.vregs[x as usize] = a - b;
        } else {
            proof {
                lemma_wrap_diff(a, b);
            }
            self.vregs[x as usize] = ((256u16 + a as u16) - b as u16) as u8;
        }
        self.vregs[15] = if a >= b {
            1
        } else {
            0
        };
        self.pc = self.pc + 2;
    }

    /// SUBN Vx, Vy: Vy - Vx with the same borrow convention as SUB.
    pub fn op_subn(&mut self, x: u8, y: u8)
        requires
            old(self).wf(),
            x < 16,
            y < 16,
            old(self)@.pc + 2 <= u16::MAX,
        ensures
            final(self).wf(),
            final(self)@ =~= sp_subn(old(self)@, x, y),
    {
        let a = self.vregs[y as usize];
        let b = self.vregs[x as usize];
        if a >= b {
            self.vregs[x as usize] = a - b;
        } else {
            proof {
                lemma_wrap_diff(a, b);
            }
            self.vregs[x as usize] = ((256u16 + a as u16) - b as u16) as u8;
        }
        self.vregs[15] = if a >= b {
            1
        } else {
            0
        };
        self.pc = self.pc + 2;
    }

    /// SHR Vx.  The result register takes Vx shifted right by one and
    /// the flag register takes the pre-shift least-significant bit; when
    /// x is the flag register itself, the flag write wins.
    pub fn op_shr(&mut self, x: u8)
        requires
            old(self).wf(),
            x < 16,
            old(self)@.pc + 2 <= u16::MAX,
        ensures
            final(self).wf(),
            final(self)@ =~= sp_shr(old(self)@, x),
            final(self)@.v[15] == old(self)@.v[x as int] % 2,
            x != 15 ==> final(self)@.v[x as int] == old(self)@.v[x as int] / 2,
    {
        let v = self.vregs[x as usize];
        self.vregs[x as usize] = v / 2;
        self.vregs[15] = v % 2;
        self.pc = self.pc + 2;
    }

    /// SHL Vx: Vx doubled modulo 256, flag = the bit shifted out.
    pub fn op_shl(&mut self, x: u8)
        requires
            old(self).wf(),
            x < 16,
            old(self)@.pc + 2 <= u16::MAX,
        ensures
            final(self).wf(),
            final(self)@ =~= sp_shl(old(self)@, x),
    {
        let v = self.vregs[x as usize];
        self.vregs[x as usize] = ((v as u16 * 2) % 256) as u8;
        self.vregs[15] = v / 128;
        self.pc = self.pc + 2;
    }

    /// LD I, nnn.
    pub fn op_ld_i(&mut self, nnn: u16)
        requires
            old(self).wf(),
            old(self)@.pc + 2 <= u16::MAX,
        ensures
            final(self).wf(),
            final(self)@ =~= sp_ld_i(old(self)@, nnn),
    {
        self.i = nnn;
        self.pc = self.pc + 2;
    }

    /// RND Vx, kk, applied to a byte already drawn by the caller.
    pub fn op_rnd(&mut self, x: u8, kk: u8, b: u8)
        requires
            old(self).wf(),
            x < 16,
            old(self)@.pc + 2 <= u16::MAX,
        ensures
            final(self).wf(),
            final(self)@ =~= sp_rnd(old(self)@, x, kk, b),
    {
        self.vregs[x as usize] = b & kk;
        self.pc = self.pc + 2;
    }

    /// SKP Vx.
    pub fn op_skp(&mut self, x: u8)
        requires
            old(self).wf(),
            x < 16,
            old(self)@.pc + 4 <= u16::MAX,
        ensures
            final(self).wf(),
            final(self)@ =~= sp_skp(old(self)@, x),
    {
        let key = (self.vregs[x as usize] % 16) as usize;
        if self.curr_keys[key] {
            self.pc = self.pc + 4;
        } else {
            self.pc = self.pc + 2;
        }
    }

    /// SKNP Vx.
    pub fn op_sknp(&mut self, x: u8)
        requires
            old(self).wf(),
            x < 16,
            old(self)@.pc + 4 <= u16::MAX,
        ensures
            final(self).wf(),
            final(self)@ =~= sp_sknp(old(self)@, x),
    {
        let key = (self.vregs[x as usize] % 16) as usize;
        if !self.curr_keys[key] {
            self.pc = self.pc + 4;
        } else {
            self.pc = self.pc + 2;
        }
    }

    /// LD Vx, DT.
    pub fn op_ld_dt(&mut self, x: u8)
        requires
            old(self).wf(),
            x < 16,
            old(self)@.pc + 2 <= u16::MAX,
        ensures
            final(self).wf(),
            final(self)@ =~= sp_ld_dt(old(self)@, x),
    {
        self.vregs[x as usize] = self.dt;
        self.pc = self.pc + 2;
    }

    /// LD DT, Vx.
    pub fn op_st_dt(&mut self, x: u8)
        requires
            old(self).wf(),
            x < 16,
            old(self)@.pc + 2 <= u16::MAX,
        ensures
            final(self).wf(),
            final(self)@ =~= sp_st_dt(old(self)@, x),
    {
        self.dt = self.vregs[x as usize];
        self.pc = self.pc + 2;
    }

    /// LD ST, Vx.
    pub fn op_st_st(&mut self, x: u8)
        requires
            old(self).wf(),
            x < 16,
            old(self)@.pc + 2 <= u16::MAX,
        ensures
            final(self).wf(),
            final(self)@ =~= sp_st_st(old(self)@, x),
    {
        self.st = self.vregs[x as usize];
        self.pc = self.pc + 2;
    }

    /// ADD I, Vx: wrapping.
    pub fn op_add_i(&mut self, x: u8)
        requires
            old(self).wf(),
            x < 16,
            old(self)@.pc + 2 <= u16::MAX,
        ensures
            final(self).wf(),
            final(self)@ =~= sp_add_i(old(self)@, x),
    {
        let sum: u32 = self.i as u32 + self.vregs[x as usize] as u32;
        self.i = (sum % 0x10000) as u16;
        self.pc = self.pc + 2;
    }

    /// LD F, Vx.
    pub fn op_ld_font(&mut self, x: u8)
        requires
            old(self).wf(),
            x < 16,
            old(self)@.pc + 2 <= u16::MAX,
        ensures
            final(self).wf(),
            final(self)@ =~= sp_ld_font(old(self)@, x),
    {
        self.i = 5 * (self.vregs[x as usize] % 16) as u16;
        self.pc = self.pc + 2;
    }
}

impl CPU {
    /// CALL nnn.
    pub fn op_call(&mut self, nnn: u16) -> (r: Result<(), StepError>)
        requires
            old(self).wf(),
            old(self)@.pc + 2 <= u16::MAX,
        ensures
            final(self).wf(),
            ({
                let (s2, r2) = sp_call(old(self)@, nnn);
                final(self)@ =~= s2 && r == r2
            }),
    {
        if self.stack.len() >= STACK_LIMIT {
            return Result::Err(StepError::CallStackOverflow);
        }
        let ret_addr = self.pc + 2;
        self.stack.push(ret_addr);
        self.pc = nnn;
        Result::Ok(())
    }

    /// RET.
    pub fn op_ret(&mut self) -> (r: Result<(), StepError>)
        requires
            old(self).wf(),
        ensures
            final(self).wf(),
            ({
                let (s2, r2) = sp_ret(old(self)@);
                final(self)@ =~= s2 && r == r2
            }),
    {
        match self.stack.pop() {
            Option::Some(addr) => {
                self.pc = addr;
                Result::Ok(())
            },
            Option::None => {
                self.is_halted = true;
                Result::Err(StepError::EmptyStackReturn)
            },
        }
    }

    /// LD B, Vx.
    pub fn op_bcd(&mut self, x: u8) -> (r: Result<(), StepError>)
        requires
            old(self).wf(),
            x < 16,
            old(self)@.pc + 2 <= u16::MAX,
        ensures
            final(self).wf(),
            ({
                let (s2, r2) = sp_bcd(old(self)@, x);
                final(self)@ =~= s2 && r == r2
            }),
    {
        let base = self.i as usize;
        if base + 3 > MEMSIZE {
            return Result::Err(StepError::OutOfRangeAccess);
        }
        let val = self.vregs[x as usize];
        self.memory[base] = val / 100;
        self.memory[base + 1] = (val / 10) % 10;
        self.memory[base + 2] = val % 10;
        self.pc = self.pc + 2;
        Result::Ok(())
    }

    /// LD [I], Vx: the range written is inclusive of Vx.
    pub fn op_st_regs(&mut self, x: u8) -> (r: Result<(), StepError>)
        requires
            old(self).wf(),
            x < 16,
            old(self)@.pc + 2 <= u16::MAX,
        ensures
            final(self).wf(),
            ({
                let (s2, r2) = sp_st_regs(old(self)@, x);
                final(self)@ =~= s2 && r == r2
            }),
    {
        let base = self.i as usize;
        if base + x as usize + 1 > MEMSIZE {
            return Result::Err(StepError::OutOfRangeAccess);
        }
        let ghost s0 = self@;
        let mut k: usize = 0;
        while k <= x as usize
            invariant
                self.wf(),
                x < 16,
                k <= x as usize + 1,
                base == s0.i,
                base + x + 1 <= MEMSIZE,
                s0.v.len() == 16,
                s0.mem.len() == MEMSIZE,
                self@ =~= (CpuSnap {
                    mem: Seq::new(
                        MEMSIZE as nat,
                        |a: int|
                            if s0.i <= a < s0.i + k {
                                s0.v[a - s0.i]
                            } else {
                                s0.mem[a]
                            },
                    ),
                    ..s0
                }),
            decreases x as usize + 1 - k,
        {
            self.memory[base + k] = self.vregs[k];
            k = k + 1;
        }
        self.pc = self.pc + 2;
        proof {
            let (s2, r2) = sp_st_regs(s0, x);
            assert(final(self)@.mem =~= s2.mem);
        }
        Result::Ok(())
    }

    /// LD Vx, [I]: the range read is inclusive of Vx.
    pub fn op_ld_regs(&mut self, x: u8) -> (r: Result<(), StepError>)
        requires
            old(self).wf(),
            x < 16,
            old(self)@.pc + 2 <= u16::MAX,
        ensures
            final(self).wf(),
            ({
                let (s2, r2) = sp_ld_regs(old(self)@, x);
                final(self)@ =~= s2 && r == r2
            }),
    {
        let base = self.i as usize;
        if base + x as usize + 1 > MEMSIZE {
            return Result::Err(StepError::OutOfRangeAccess);
        }
        let ghost s0 = self@;
        let mut k: usize = 0;
        while k <= x as usize
            invariant
                self.wf(),
                x < 16,
                k <= x as usize + 1,
                base == s0.i,
                base + x + 1 <= MEMSIZE,
                s0.v.len() == 16,
                s0.mem.len() == MEMSIZE,
                self@ =~= (CpuSnap {
                    v: Seq::new(
                        16,
                        |r: int|
                            if r < k {
                                s0.mem[s0.i + r]
                            } else {
                                s0.v[r]
                            },
                    ),
                    ..s0
                }),
            decreases x as usize + 1 - k,
        {
            self.vregs[k] = self.memory[base + k];
            k = k + 1;
        }
        self.pc = self.pc + 2;
        proof {
            let (s2, r2) = sp_ld_regs(s0, x);
            assert(final(self)@.v =~= s2.v);
        }
        Result::Ok(())
    }
}

/// A wrapped byte difference: for a < b, the residue of a - b modulo 256
/// equals 256 + a - b.
proof fn lemma_wrap_diff(a: u8, b: u8)
    requires
        a < b,
    ensures
        (a - b) % 256 == 256 + a - b,
{
    let d = a - b;
    assert(-256 < d < 0);
    assert(d % 256 == d + 256) by (nonlinear_arith)
        requires
            -256 < d < 0,
    ;
}

} // verus!
