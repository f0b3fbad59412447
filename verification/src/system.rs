//! The stepped state machine that drives the whole system: fetch,
//! decode, execute, suspend on a key-wait, and decay the timers in
//! real time.

use vstd::prelude::*;

use crate::cpu::CPU;
use crate::cpu::CpuSnap;
use crate::cpu::MEMSIZE;
use crate::cpu::ROM_OFFSET;
use crate::decode::Instr;
use crate::rom::ROM;
use crate::decode::spec_decode;
use crate::decode::instr_wf;
use crate::display::Display;
use crate::display::grid_wf;
use crate::display::sp_blit;
use crate::display::sp_collision;
use crate::ops::StepError;
use crate::ops::sp_nop;
use crate::ops::sp_jp;
use crate::ops::sp_jp_v0;
use crate::ops::sp_se_val;
use crate::ops::sp_sne_val;
use crate::ops::sp_se_reg;
use crate::ops::sp_sne_reg;
use crate::ops::sp_ld_val;
use crate::ops::sp_add_val;
use crate::ops::sp_ld_reg;
use crate::ops::sp_or;
use crate::ops::sp_and;
use crate::ops::sp_xor;
use crate::ops::sp_add;
use crate::ops::sp_sub;
use crate::ops::sp_shr;
use crate::ops::sp_subn;
use crate::ops::sp_shl;
use crate::ops::sp_ld_i;
use crate::ops::sp_rnd;
use crate::ops::sp_skp;
use crate::ops::sp_sknp;
use crate::ops::sp_ld_dt;
use crate::ops::sp_st_dt;
use crate::ops::sp_st_st;
use crate::ops::sp_add_i;
use crate::ops::sp_ld_font;
use crate::ops::sp_call;
use crate::ops::sp_ret;
use crate::ops::sp_bcd;
use crate::ops::sp_st_regs;
use crate::ops::sp_ld_regs;

verus! {

/// Bytes of the font table: sixteen glyphs of five bytes each, written
/// at addresses [0, 80) when a system is built.
pub const FONT_BYTES: usize = 80;

/// The font table: glyph k, the sprite drawing hex digit k, occupies
/// bytes [5k, 5k+5).
pub open spec fn spec_font() -> Seq<u8> {
    seq![
        0xF0u8, 0x90, 0x90, 0x90, 0xF0,  // 0
        0x20, 0x60, 0x20, 0x20, 0x70,  // 1
        0xF0, 0x10, 0xF0, 0x80, 0xF0,  // 2
        0xF0, 0x10, 0xF0, 0x10, 0xF0,  // 3
        0x90, 0x90, 0xF0, 0x10, 0x10,  // 4
        0xF0, 0x80, 0xF0, 0x10, 0xF0,  // 5
        0xF0, 0x80, 0xF0, 0x90, 0xF0,  // 6
        0xF0, 0x10, 0x20, 0x40, 0x40,  // 7
        0xF0, 0x90, 0xF0, 0x90, 0xF0,  // 8
        0xF0, 0x90, 0xF0, 0x10, 0xF0,  // 9
        0xF0, 0x90, 0xF0, 0x90, 0x90,  // A
        0xE0, 0x90, 0xE0, 0x90, 0xE0,  // B
        0xF0, 0x80, 0x80, 0x80, 0xF0,  // C
        0xE0, 0x90, 0x90, 0x90, 0xE0,  // D
        0xF0, 0x80, 0xF0, 0x80, 0xF0,  // E
        0xF0, 0x80, 0xF0, 0x80, 0x80,  // F
    ]
}

/// The font table as a vector.
fn font_data() -> (v: Vec<u8>)
    ensures
        v@ =~= spec_font(),
{
    let v: Vec<u8> = vec![
        0xF0u8, 0x90, 0x90, 0x90, 0xF0,  // 0
        0x20, 0x60, 0x20, 0x20, 0x70,  // 1
        0xF0, 0x10, 0xF0, 0x80, 0xF0,  // 2
        0xF0, 0x10, 0xF0, 0x10, 0xF0,  // 3
        0x90, 0x90, 0xF0, 0x10, 0x10,  // 4
        0xF0, 0x80, 0xF0, 0x10, 0xF0,  // 5
        0xF0, 0x80, 0xF0, 0x90, 0xF0,  // 6
        0xF0, 0x10, 0x20, 0x40, 0x40,  // 7
        0xF0, 0x90, 0xF0, 0x90, 0xF0,  // 8
        0xF0, 0x90, 0xF0, 0x10, 0xF0,  // 9
        0xF0, 0x90, 0xF0, 0x90, 0x90,  // A
        0xE0, 0x90, 0xE0, 0x90, 0xE0,  // B
        0xF0, 0x80, 0x80, 0x80, 0xF0,  // C
        0xE0, 0x90, 0x90, 0x90, 0xE0,  // D
        0xF0, 0x80, 0xF0, 0x80, 0xF0,  // E
        0xF0, 0x80, 0xF0, 0x80, 0x80,  // F
    ];
    v
}

/// One 60Hz timer interval, measured in thirds of a microsecond:
/// 3 * 1000000 / 60.
pub const TICK_UNITS: u64 = 50000;

/// Largest elapsed time, in microseconds, that one timer update
/// accepts without its arithmetic overflowing.
pub const MAX_TICK_MICROS: u64 = 6_000_000_000_000_000_000;

/// Mathematical snapshot of the whole system.
#[verifier::ext_equal]
pub ghost struct SysSnap {
    pub cpu: CpuSnap,
    pub grid: Seq<bool>,
    pub dirty: bool,
    pub pending: Option<Instr>,
    pub acc: u64,
}

impl SysSnap {
    /// Shape every reachable system state keeps.  A pending instruction
    /// is always a key-wait, and the timer accumulator stays below one
    /// interval.
    pub open spec fn wf(self) -> bool {
        &&& self.cpu.wf()
        &&& grid_wf(self.grid)
        &&& self.acc < TICK_UNITS
        &&& match self.pending {
            Option::Some(ins) => ins matches Instr::LdKey { x } && x < 16,
            Option::None => true,
        }
    }
}

/// The whole machine: processor state, framebuffer, the at-most-one
/// pending (blocking) instruction, and the timer accumulator.
pub struct System {
    /// Registers, memory, stack, timers and key states.
    pub cpu: CPU,
    /// The pending blocking instruction, if a key-wait is in progress.
    pub pending: Option<Instr>,
    /// Set when a draw instruction ran; cleared by the presentation
    /// layer once it has consumed a frame.
    pub draw_screen: bool,
    /// The 64x32 framebuffer.
    pub display: Display,
    /// Time carried toward the next 60Hz timer decrement, in thirds of
    /// a microsecond.
    pub timer_acc: u64,
}

impl View for System {
    type V = SysSnap;

    open spec fn view(&self) -> SysSnap {
        SysSnap {
            cpu: self.cpu@,
            grid: self.display@,
            dirty: self.draw_screen,
            pending: self.pending,
            acc: self.timer_acc,
        }
    }
}

impl System {
    pub open spec fn wf(&self) -> bool {
        self@.wf()
    }

    /// A fresh system: a fresh processor with the font table written at
    /// the bottom of memory, a blank framebuffer, nothing pending.
    pub fn new() -> (sys: System)
        ensures
            sys.wf(),
            sys@.cpu.pc == ROM_OFFSET,
            sys@.cpu.v =~= Seq::new(16, |k: int| 0u8),
            sys@.cpu.i == 0,
            sys@.cpu.stack =~= Seq::<u16>::empty(),
            sys@.cpu.keys =~= Seq::new(16, |k: int| false),
            sys@.cpu.dt == 255,
            sys@.cpu.st == 255,
            !sys@.cpu.halted,
            sys@.cpu.mem =~= Seq::new(
                MEMSIZE as nat,
                |a: int|
                    if a < FONT_BYTES {
                        spec_font()[a]
                    } else {
                        0u8
                    },
            ),
            sys@.grid =~= Seq::new(2048, |p: int| false),
            !sys@.dirty,
            sys@.pending is None,
            sys@.acc == 0,
    {
        let mut cpu = CPU::new();
        let ghost cpu0 = cpu@;
        let font = font_data();
        let mut a: usize = 0;
        while a < FONT_BYTES
            invariant
                cpu.wf(),
                a <= FONT_BYTES,
                font@ =~= spec_font(),
                cpu@ =~= (CpuSnap {
                    mem: Seq::new(
                        MEMSIZE as nat,
                        |q: int|
                            if q < a {
                                spec_font()[q]
                            } else {
                                cpu0.mem[q]
                            },
                    ),
                    ..cpu0
                }),
                cpu0.mem.len() == MEMSIZE,
            decreases FONT_BYTES - a,
        {
            cpu.store_byte_mem(a, font[a]);
            a = a + 1;
        }
        System {
            cpu,
            pending: Option::None,
            draw_screen: false,
            display: Display::new(),
            timer_acc: 0,
        }
    }

    /// Write a program image into memory starting at the program start
    /// address; the rest of memory is untouched.
    pub fn load_rom(&mut self, rom: &ROM)
        requires
            old(self).wf(),
            rom@.len() <= MEMSIZE - ROM_OFFSET,
        ensures
            final(self).wf(),
            final(self)@ =~= (SysSnap {
                cpu: CpuSnap {
                    mem: Seq::new(
                        MEMSIZE as nat,
                        |a: int|
                            if ROM_OFFSET <= a < ROM_OFFSET + rom@.len() {
                                rom@[a - ROM_OFFSET]
                            } else {
                                old(self)@.cpu.mem[a]
                            },
                    ),
                    ..old(self)@.cpu
                },
                ..old(self)@
            }),
    {
        let ghost s0 = self@;
        let data = rom.data();
        let mut k: usize = 0;
        while k < data.len()
            invariant
                self.wf(),
                k <= data@.len(),
                data@ == rom@,
                data@.len() <= MEMSIZE - ROM_OFFSET,
                s0.cpu.mem.len() == MEMSIZE,
                self@ =~= (SysSnap {
                    cpu: CpuSnap {
                        mem: Seq::new(
                            MEMSIZE as nat,
                            |a: int|
                                if ROM_OFFSET <= a < ROM_OFFSET + k {
                                    rom@[a - ROM_OFFSET]
                                } else {
                                    s0.cpu.mem[a]
                                },
                        ),
                        ..s0.cpu
                    },
                    ..s0
                }),
            decreases data@.len() - k,
        {
            let b = data[k];
            self.cpu.store_byte_mem(ROM_OFFSET + k, b);
            k = k + 1;
        }
    }
}

/// Whether any of the sixteen keys is pressed.
pub open spec fn any_key(keys: Seq<bool>) -> bool {
    exists|k: int| 0 <= k < 16 && keys[k]
}

/// The lowest pressed key index at or after `k`, or 16 if none is.
pub open spec fn first_key_from(keys: Seq<bool>, k: int) -> int
    decreases 16 - k,
{
    if k < 0 || k >= 16 {
        16
    } else if keys[k] {
        k
    } else {
        first_key_from(keys, k + 1)
    }
}

/// The lowest pressed key index, or 16 if no key is pressed.
pub open spec fn sp_first_key(keys: Seq<bool>) -> int {
    first_key_from(keys, 0)
}

/// DRW Vx, Vy, n: blit the n bytes at I onto the grid at (Vx, Vy), set
/// VF to the collision result, mark the frame dirty; refused, system
/// unchanged, if the sprite bytes would reach past memory.
pub open spec fn sp_drw(s: SysSnap, x: u8, y: u8, n: u8) -> (SysSnap, Result<(), StepError>) {
    if s.cpu.i + n > MEMSIZE {
        (s, Result::Err(StepError::OutOfRangeAccess))
    } else {
        let sprite = s.cpu.mem.subrange(s.cpu.i as int, s.cpu.i + n);
        let px = s.cpu.v[x as int];
        let py = s.cpu.v[y as int];
        let col = sp_collision(s.grid, px, py, sprite);
        (
            SysSnap {
                cpu: CpuSnap {
                    pc: (s.cpu.pc + 2) as u16,
                    v: s.cpu.v.update(
                        15,
                        if col {
                            1u8
                        } else {
                            0u8
                        },
                    ),
                    ..s.cpu
                },
                grid: sp_blit(s.grid, px, py, sprite),
                dirty: true,
                ..s
            },
            Result::Ok(()),
        )
    }
}

/// What executing one decoded instruction does to the whole system.
/// `rnd` is the byte a random instruction consumes.
pub open spec fn sp_dispatch(s: SysSnap, ins: Instr, rnd: u8) -> (SysSnap, Result<
    (),
    StepError,
>) {
    match ins {
        Instr::Sys { nnn } => (SysSnap { cpu: sp_nop(s.cpu), ..s }, Result::Ok(())),
        Instr::Cls => (SysSnap { cpu: sp_nop(s.cpu), ..s }, Result::Ok(())),
        Instr::Ret => {
            let (c2, r2) = sp_ret(s.cpu);
            (SysSnap { cpu: c2, ..s }, r2)
        },
        Instr::Jp { nnn } => (SysSnap { cpu: sp_jp(s.cpu, nnn), ..s }, Result::Ok(())),
        Instr::Call { nnn } => {
            let (c2, r2) = sp_call(s.cpu, nnn);
            (SysSnap { cpu: c2, ..s }, r2)
        },
        Instr::SeVal { x, kk } => (SysSnap { cpu: sp_se_val(s.cpu, x, kk), ..s }, Result::Ok(())),
        Instr::SneVal { x, kk } => (SysSnap { cpu: sp_sne_val(s.cpu, x, kk), ..s }, Result::Ok(())),
        Instr::SeReg { x, y } => (SysSnap { cpu: sp_se_reg(s.cpu, x, y), ..s }, Result::Ok(())),
        Instr::LdVal { x, kk } => (SysSnap { cpu: sp_ld_val(s.cpu, x, kk), ..s }, Result::Ok(())),
        Instr::AddVal { x, kk } => (SysSnap { cpu: sp_add_val(s.cpu, x, kk), ..s }, Result::Ok(())),
        Instr::LdReg { x, y } => (SysSnap { cpu: sp_ld_reg(s.cpu, x, y), ..s }, Result::Ok(())),
        Instr::Or { x, y } => (SysSnap { cpu: sp_or(s.cpu, x, y), ..s }, Result::Ok(())),
        Instr::And { x, y } => (SysSnap { cpu: sp_and(s.cpu, x, y), ..s }, Result::Ok(())),
        Instr::Xor { x, y } => (SysSnap { cpu: sp_xor(s.cpu, x, y), ..s }, Result::Ok(())),
        Instr::Add { x, y } => (SysSnap { cpu: sp_add(s.cpu, x, y), ..s }, Result::Ok(())),
        Instr::Sub { x, y } => (SysSnap { cpu: sp_sub(s.cpu, x, y), ..s }, Result::Ok(())),
        Instr::Shr { x, y } => (SysSnap { cpu: sp_shr(s.cpu, x), ..s }, Result::Ok(())),
        Instr::Subn { x, y } => (SysSnap { cpu: sp_subn(s.cpu, x, y), ..s }, Result::Ok(())),
        Instr::Shl { x, y } => (SysSnap { cpu: sp_shl(s.cpu, x), ..s }, Result::Ok(())),
        Instr::SneReg { x, y } => (SysSnap { cpu: sp_sne_reg(s.cpu, x, y), ..s }, Result::Ok(())),
        Instr::LdI { nnn } => (SysSnap { cpu: sp_ld_i(s.cpu, nnn), ..s }, Result::Ok(())),
        Instr::JpV0 { nnn } => (SysSnap { cpu: sp_jp_v0(s.cpu, nnn), ..s }, Result::Ok(())),
        Instr::Rnd { x, kk } => (SysSnap { cpu: sp_rnd(s.cpu, x, kk, rnd), ..s }, Result::Ok(())),
        Instr::Drw { x, y, n } => sp_drw(s, x, y, n),
        Instr::Skp { x } => (SysSnap { cpu: sp_skp(s.cpu, x), ..s }, Result::Ok(())),
        Instr::Sknp { x } => (SysSnap { cpu: sp_sknp(s.cpu, x), ..s }, Result::Ok(())),
        Instr::LdDt { x } => (SysSnap { cpu: sp_ld_dt(s.cpu, x), ..s }, Result::Ok(())),
        Instr::LdKey { x } => (SysSnap { pending: Option::Some(ins), ..s }, Result::Ok(())),
        Instr::StDt { x } => (SysSnap { cpu: sp_st_dt(s.cpu, x), ..s }, Result::Ok(())),
        Instr::StSt { x } => (SysSnap { cpu: sp_st_st(s.cpu, x), ..s }, Result::Ok(())),
        Instr::AddI { x } => (SysSnap { cpu: sp_add_i(s.cpu, x), ..s }, Result::Ok(())),
        Instr::LdFont { x } => (SysSnap { cpu: sp_ld_font(s.cpu, x), ..s }, Result::Ok(())),
        Instr::StBcd { x } => {
            let (c2, r2) = sp_bcd(s.cpu, x);
            (SysSnap { cpu: c2, ..s }, r2)
        },
        Instr::StRegs { x } => {
            let (c2, r2) = sp_st_regs(s.cpu, x);
            (SysSnap { cpu: c2, ..s }, r2)
        },
        Instr::LdRegs { x } => {
            let (c2, r2) = sp_ld_regs(s.cpu, x);
            (SysSnap { cpu: c2, ..s }, r2)
        },
    }
}

/// One pending-check-or-fetch cycle, the step machine of the system.
///
/// Waiting: a pending key-wait completes once some key is pressed; the
/// lowest pressed key index lands in its register and the counter
/// advances by 2; with no key pressed the state is unchanged.
///
/// Idle: fetch at the counter (refused if it sits at the last memory
/// byte or past it), decode (a failed decode is reported and changes
/// nothing), execute.  A key-wait becomes pending without advancing
/// the counter.
pub open spec fn sp_step(s: SysSnap, rnd: u8) -> (SysSnap, Result<(), StepError>) {
    match s.pending {
        Option::Some(pend) => match pend {
            Instr::LdKey { x } => {
                if any_key(s.cpu.keys) {
                    let k = sp_first_key(s.cpu.keys);
                    (
                        SysSnap {
                            cpu: CpuSnap {
                                pc: (s.cpu.pc + 2) as u16,
                                v: s.cpu.v.update(x as int, k as u8),
                                ..s.cpu
                            },
                            pending: Option::None,
                            ..s
                        },
                        Result::Ok(()),
                    )
                } else {
                    (s, Result::Ok(()))
                }
            },
            _ => (s, Result::Ok(())),
        },
        Option::None => {
            if s.cpu.pc + 1 >= MEMSIZE {
                (s, Result::Err(StepError::OutOfRangeAccess))
            } else {
                let w = CPU::spec_word_at(s.cpu.mem, s.cpu.pc as int);
                match spec_decode(w) {
                    Result::Err(_) => (s, Result::Err(StepError::UnsupportedOpcode { word: w })),
                    Result::Ok(ins) => sp_dispatch(s, ins, rnd),
                }
            }
        },
    }
}

/// The lowest pressed key skips over a prefix of released keys.
proof fn lemma_first_key_skip(keys: Seq<bool>, k: int)
    requires
        keys.len() == 16,
        0 <= k <= 16,
        forall|i: int| 0 <= i < k ==> !keys[i],
    ensures
        sp_first_key(keys) == first_key_from(keys, k),
    decreases k,
{
    if k > 0 {
        lemma_first_key_skip(keys, k - 1);
    }
}

impl CPU {
    /// The lowest pressed key, if any key is pressed.
    pub fn first_pressed_key(&self) -> (r: Option<u8>)
        requires
            self.wf(),
        ensures
            match r {
                Option::Some(k) => k < 16 && any_key(self@.keys) && k == sp_first_key(self@.keys),
                Option::None => !any_key(self@.keys),
            },
    {
        let mut k: usize = 0;
        while k < 16
            invariant
                self.wf(),
                k <= 16,
                forall|i: int| 0 <= i < k ==> !self@.keys[i],
            decreases 16 - k,
        {
            if self.curr_keys[k] {
                proof {
                    lemma_first_key_skip(self@.keys, k as int);
                }
                return Option::Some(k as u8);
            }
            k = k + 1;
        }
        proof {
            lemma_first_key_skip(self@.keys, 16);
        }
        return Option::None;
    }
}

/// Relies on rand::random::<u8>: a byte drawn from the thread's
/// generator.  Nothing is assumed of its value.
#[verifier::external_body]
fn random_byte() -> u8 {
    rand::random::<u8>()
}

impl System {
    /// DRW Vx, Vy, n: read the sprite from memory at I, blit it, store
    /// the collision flag, mark the frame dirty.
    pub fn do_drw_instr(&mut self, x: u8, y: u8, n: u8) -> (r: Result<(), StepError>)
        requires
            old(self).wf(),
            x < 16,
            y < 16,
            n < 16,
            old(self)@.cpu.pc + 2 <= u16::MAX,
        ensures
            final(self).wf(),
            ({
                let (s2, r2) = sp_drw(old(self)@, x, y, n);
                final(self)@ =~= s2 && r == r2
            }),
    {
        let base = self.cpu.i as usize;
        if base + n as usize > MEMSIZE {
            return Result::Err(StepError::OutOfRangeAccess);
        }
        let ghost s0 = self@;
        let mut sprite: Vec<u8> = Vec::new();
        let mut k: usize = 0;
        while k < n as usize
            invariant
                self.wf(),
                self@ == s0,
                k <= n,
                base == s0.cpu.i,
                base + n <= MEMSIZE,
                sprite@ =~= s0.cpu.mem.subrange(base as int, base + k),
            decreases n - k,
        {
            sprite.push(self.cpu.get_byte_mem(base + k));
            proof {
                assert(sprite@ =~= s0.cpu.mem.subrange(base as int, base + k + 1));
            }
            k = k + 1;
        }
        let px = self.cpu.get_reg(x);
        let py = self.cpu.get_reg(y);
        let col = self.display.draw_sprite(px, py, &sprite);
        let flag: u8 = if col {
            1
        } else {
            0
        };
        self.cpu.set_reg(15, flag);
        self.cpu.pc = self.cpu.pc + 2;
        self.draw_screen = true;
        Result::Ok(())
    }

    /// Execute one decoded instruction.
    fn dispatch(&mut self, ins: Instr, rnd: u8) -> (r: Result<(), StepError>)
        requires
            old(self).wf(),
            instr_wf(ins),
            old(self)@.cpu.pc + 4 <= u16::MAX,
        ensures
            final(self).wf(),
            ({
                let (s2, r2) = sp_dispatch(old(self)@, ins, rnd);
                final(self)@ =~= s2 && r == r2
            }),
    {
        match ins {
            Instr::Sys { nnn } => {
                self.cpu.op_nop();
                Result::Ok(())
            },
            Instr::Cls => {
                self.cpu.op_nop();
                Result::Ok(())
            },
            Instr::Ret => self.cpu.op_ret(),
            Instr::Jp { nnn } => {
                self.cpu.op_jp(nnn);
                Result::Ok(())
            },
            Instr::Call { nnn } => self.cpu.op_call(nnn),
            Instr::SeVal { x, kk } => {
                self.cpu.op_se_val(x, kk);
                Result::Ok(())
            },
            Instr::SneVal { x, kk } => {
                self.cpu.op_sne_val(x, kk);
                Result::Ok(())
            },
            Instr::SeReg { x, y } => {
                self.cpu.op_se_reg(x, y);
                Result::Ok(())
            },
            Instr::LdVal { x, kk } => {
                self.cpu.op_ld_val(x, kk);
                Result::Ok(())
            },
            Instr::AddVal { x, kk } => {
                self.cpu.op_add_val(x, kk);
                Result::Ok(())
            },
            Instr::LdReg { x, y } => {
                self.cpu.op_ld_reg(x, y);
                Result::Ok(())
            },
            Instr::Or { x, y } => {
                self.cpu.op_or(x, y);
                Result::Ok(())
            },
            Instr::And { x, y } => {
                self.cpu.op_and(x, y);
                Result::Ok(())
            },
            Instr::Xor { x, y } => {
                self.cpu.op_xor(x, y);
                Result::Ok(())
            },
            Instr::Add { x, y } => {
                self.cpu.op_add(x, y);
                Result::Ok(())
            },
            Instr::Sub { x, y } => {
                self.cpu.op_sub(x, y);
                Result::Ok(())
            },
            Instr::Shr { x, y } => {
                self.cpu.op_shr(x);
                Result::Ok(())
            },
            Instr::Subn { x, y } => {
                self.cpu.op_subn(x, y);
                Result::Ok(())
            },
            Instr::Shl { x, y } => {
                self.cpu.op_shl(x);
                Result::Ok(())
            },
            Instr::SneReg { x, y } => {
                self.cpu.op_sne_reg(x, y);
                Result::Ok(())
            },
            Instr::LdI { nnn } => {
                self.cpu.op_ld_i(nnn);
                Result::Ok(())
            },
            Instr::JpV0 { nnn } => {
                self.cpu.op_jp_v0(nnn);
                Result::Ok(())
            },
            Instr::Rnd { x, kk } => {
                self.cpu.op_rnd(x, kk, rnd);
                Result::Ok(())
            },
            Instr::Drw { x, y, n } => self.do_drw_instr(x, y, n),
            Instr::Skp { x } => {
                self.cpu.op_skp(x);
                Result::Ok(())
            },
            Instr::Sknp { x } => {
                self.cpu.op_sknp(x);
                Result::Ok(())
            },
            Instr::LdDt { x } => {
                self.cpu.op_ld_dt(x);
                Result::Ok(())
            },
            Instr::LdKey { x } => {
                self.pending = Option::Some(ins);
                Result::Ok(())
            },
            Instr::StDt { x } => {
                self.cpu.op_st_dt(x);
                Result::Ok(())
            },
            Instr::StSt { x } => {
                self.cpu.op_st_st(x);
                Result::Ok(())
            },
            Instr::AddI { x } => {
                self.cpu.op_add_i(x);
                Result::Ok(())
            },
            Instr::LdFont { x } => {
                self.cpu.op_ld_font(x);
                Result::Ok(())
            },
            Instr::StBcd { x } => self.cpu.op_bcd(x),
            Instr::StRegs { x } => self.cpu.op_st_regs(x),
            Instr::LdRegs { x } => self.cpu.op_ld_regs(x),
        }
    }

    /// One step of the two-state machine, with the byte a random
    /// instruction would consume passed in by the caller.
    pub fn step_with_rnd(&mut self, rnd: u8) -> (r: Result<(), StepError>)
        requires
            old(self).wf(),
        ensures
            final(self).wf(),
            ({
                let (s2, r2) = sp_step(old(self)@, rnd);
                final(self)@ =~= s2 && r == r2
            }),
    {
        match self.pending {
            Option::Some(pend) => {
                match pend {
                    Instr::LdKey { x } => {
                        match self.cpu.first_pressed_key() {
                            Option::Some(k) => {
                                self.cpu.set_reg(x, k);
                                let ghost p = self.cpu.pc;
                                self.cpu.pc = ((self.cpu.pc as u32 + 2) % 0x10000) as u16;
                                proof {
                                    assert(((p as u32 + 2) % 0x10000) as u16 == (p + 2) as u16)
                                        by (bit_vector);
                                }
                                self.pending = Option::None;
                                Result::Ok(())
                            },
                            Option::None => Result::Ok(()),
                        }
                    },
                    _ => Result::Ok(()),
                }
            },
            Option::None => {
                if self.cpu.pc as usize + 1 >= MEMSIZE {
                    return Result::Err(StepError::OutOfRangeAccess);
                }
                let w = self.cpu.fetch_instr_from_addr(self.cpu.pc as usize);
                match CPU::decode_instr(w) {
                    Result::Err(_) => Result::Err(StepError::UnsupportedOpcode { word: w }),
                    Result::Ok(ins) => self.dispatch(ins, rnd),
                }
            },
        }
    }

    /// One step of the two-state machine: complete or keep a pending
    /// key-wait, else fetch, decode and execute the instruction at the
    /// program counter.  A random instruction consumes a fresh random
    /// byte, so two calls from equal states may differ in the register
    /// that byte lands in.
    pub fn step(&mut self) -> (r: Result<(), StepError>)
        requires
            old(self).wf(),
        ensures
            final(self).wf(),
            exists|b: u8|
                final(self)@ =~= (#[trigger] sp_step(old(self)@, b)).0 && r == sp_step(
                    old(self)@,
                    b,
                ).1,
    {
        let b = random_byte();
        let r = self.step_with_rnd(b);
        proof {
            assert(final(self)@ =~= sp_step(old(self)@, b).0 && r == sp_step(old(self)@, b).1);
        }
        r
    }
}

/// One 60Hz decrement: a timer steps down by one, flooring at zero.
pub open spec fn sp_dec(t: u8) -> u8 {
    if t > 0 {
        (t - 1) as u8
    } else {
        0
    }
}

/// Drain the accumulator: each full interval in it decrements both
/// timers once and is subtracted, carrying the remainder.
pub open spec fn sp_drain(acc: int, dt: u8, st: u8) -> (int, u8, u8)
    decreases acc,
{
    if acc >= TICK_UNITS {
        sp_drain(acc - TICK_UNITS, sp_dec(dt), sp_dec(st))
    } else {
        (acc, dt, st)
    }
}

/// Account `micros` microseconds of elapsed real time: the accumulator
/// (in thirds of a microsecond) grows by three per microsecond and is
/// then drained.
pub open spec fn sp_timer(s: SysSnap, micros: u64) -> SysSnap {
    let (acc2, dt2, st2) = sp_drain(s.acc + 3 * micros, s.cpu.dt, s.cpu.st);
    SysSnap { cpu: CpuSnap { dt: dt2, st: st2, ..s.cpu }, acc: acc2 as u64, ..s }
}

impl System {
    /// Convert elapsed wall-clock time into 60Hz decrements of the two
    /// timers.  The remainder toward the next interval is carried, not
    /// reset, so long-run decay stays accurate over irregular ticks.
    pub fn update_dt_st(&mut self, micros: u64)
        requires
            old(self).wf(),
            micros <= MAX_TICK_MICROS,
        ensures
            final(self).wf(),
            final(self)@ =~= sp_timer(old(self)@, micros),
    {
        let ghost s0 = self@;
        let mut acc: u64 = self.timer_acc + 3 * micros;
        let mut dt = self.cpu.dt;
        let mut st = self.cpu.st;
        while acc >= TICK_UNITS
            invariant
                sp_drain(acc as int, dt, st) == sp_drain(s0.acc + 3 * micros, s0.cpu.dt, s0.cpu.st),
            decreases acc,
        {
            acc = acc - TICK_UNITS;
            if dt > 0 {
                dt = dt - 1;
            }
            if st > 0 {
                st = st - 1;
            }
        }
        self.timer_acc = acc;
        self.cpu.dt = dt;
        self.cpu.st = st;
    }

    /// One tick of the whole system: one pending-check-or-fetch cycle,
    /// then one timer accounting pass over the elapsed time.
    pub fn run_tick(&mut self, micros: u64) -> (r: Result<(), StepError>)
        requires
            old(self).wf(),
            micros <= MAX_TICK_MICROS,
        ensures
            final(self).wf(),
            exists|b: u8|
                final(self)@ =~= sp_timer((#[trigger] sp_step(old(self)@, b)).0, micros) && r
                    == sp_step(old(self)@, b).1,
    {
        let r = self.step();
        self.update_dt_st(micros);
        r
    }
}

} // verus!
