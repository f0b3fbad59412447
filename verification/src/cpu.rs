//! The machine state: registers, memory, call stack, timers, key panel.

use vstd::prelude::*;

verus! {

/// Size of the byte-addressable memory.
pub const MEMSIZE: usize = 4096;

/// Address at which a loaded program begins, and the initial program counter.
pub const ROM_OFFSET: usize = 0x200;

/// Capacity of the call stack.
pub const STACK_LIMIT: usize = 16;

/// Mathematical snapshot of the machine state, used by all contracts.
#[verifier::ext_equal]
pub ghost struct CpuSnap {
    pub pc: u16,
    pub v: Seq<u8>,
    pub i: u16,
    pub stack: Seq<u16>,
    pub keys: Seq<bool>,
    pub dt: u8,
    pub st: u8,
    pub halted: bool,
    pub mem: Seq<u8>,
}

impl CpuSnap {
    /// Shape every reachable machine state keeps: sixteen registers,
    /// sixteen keys, 4096 memory bytes, at most sixteen stack frames.
    pub open spec fn wf(self) -> bool {
        &&& self.v.len() == 16
        &&& self.keys.len() == 16
        &&& self.mem.len() == MEMSIZE
        &&& self.stack.len() <= STACK_LIMIT
    }
}

/// The register file, memory and timers of the machine.
pub struct CPU {
    /// Program counter.
    pub pc: u16,
    /// General-purpose registers V0..VF; V15 doubles as the ALU flag register.
    pub vregs: Vec<u8>,
    /// Address register I.
    pub i: u16,
    /// Call stack of return addresses, capacity 16.
    pub stack: Vec<u16>,
    /// Flat byte memory of size 4096.
    pub memory: Vec<u8>,
    /// Pressed state of the sixteen keys.
    pub curr_keys: Vec<bool>,
    /// Delay timer, decremented at 60Hz.
    pub dt: u8,
    /// Sound timer, decremented at 60Hz.
    pub st: u8,
    /// Set when a jump-to-self instruction signals the end of the program.
    pub is_halted: bool,
}

impl View for CPU {
    type V = CpuSnap;

    open spec fn view(&self) -> CpuSnap {
        CpuSnap {
            pc: self.pc,
            v: self.vregs@,
            i: self.i,
            stack: self.stack@,
            keys: self.curr_keys@,
            dt: self.dt,
            st: self.st,
            halted: self.is_halted,
            mem: self.memory@,
        }
    }
}

impl CPU {
    pub open spec fn wf(&self) -> bool {
        self@.wf()
    }

    /// A fresh machine: program counter at the program start, registers,
    /// memory and keys cleared, stack empty, both timers at 255 (the
    /// chosen starting value; see `set_delay_timer` to pick another).
    pub fn new() -> (cpu: CPU)
        ensures
            cpu.wf(),
            cpu@.pc == ROM_OFFSET,
            cpu@.v =~= Seq::new(16, |k: int| 0u8),
            cpu@.i == 0,
            cpu@.stack =~= Seq::<u16>::empty(),
            cpu@.keys =~= Seq::new(16, |k: int| false),
            cpu@.dt == 255,
            cpu@.st == 255,
            !cpu@.halted,
            cpu@.mem =~= Seq::new(MEMSIZE as nat, |a: int| 0u8),
    {
        let vregs: Vec<u8> = zero_bytes(16);
        let memory: Vec<u8> = zero_bytes(MEMSIZE);
        let mut curr_keys: Vec<bool> = Vec::new();
        while curr_keys.len() < 16
            invariant
                curr_keys@ =~= Seq::new(curr_keys@.len(), |k: int| false),
                curr_keys@.len() <= 16,
            decreases 16 - curr_keys@.len(),
        {
            curr_keys.push(false);
        }
        CPU {
            pc: 0x200,
            vregs,
            i: 0,
            stack: Vec::new(),
            memory,
            curr_keys,
            dt: 255,
            st: 255,
            is_halted: false,
        }
    }

    /// Whether a jump-to-self has marked the program as finished.
    pub fn is_halted(&self) -> (r: bool)
        ensures
            r == self@.halted,
    {
        self.is_halted
    }

    /// Push a return address; the caller must have checked the capacity.
    pub fn stack_push(&mut self, addr: u16)
        requires
            old(self).wf(),
            old(self)@.stack.len() < STACK_LIMIT,
        ensures
            final(self).wf(),
            final(self)@ =~= (CpuSnap { stack: old(self)@.stack.push(addr), ..old(self)@ }),
    {
        self.stack.push(addr);
    }

    /// Read one memory byte.
    pub fn get_byte_mem(&self, addr: usize) -> (b: u8)
        requires
            self.wf(),
            addr < MEMSIZE,
        ensures
            b == self@.mem[addr as int],
    {
        self.memory[addr]
    }

    /// Overwrite one memory byte.
    pub fn store_byte_mem(&mut self, addr: usize, value: u8)
        requires
            old(self).wf(),
            addr < MEMSIZE,
        ensures
            final(self).wf(),
            final(self)@ =~= (CpuSnap { mem: old(self)@.mem.update(addr as int, value), ..old(self)@ }),
    {
        self.memory[addr] = value;
    }

    /// Mark one of the sixteen keys as pressed or released.
    pub fn set_key(&mut self, key: u8, pressed: bool)
        requires
            old(self).wf(),
            key < 16,
        ensures
            final(self).wf(),
            final(self)@ =~= (CpuSnap { keys: old(self)@.keys.update(key as int, pressed), ..old(self)@ }),
    {
        self.curr_keys[key as usize] = pressed;
    }

    /// Whether one of the sixteen keys is currently pressed.
    pub fn key_pressed(&self, key: u8) -> (r: bool)
        requires
            self.wf(),
            key < 16,
        ensures
            r == self@.keys[key as int],
    {
        self.curr_keys[key as usize]
    }

    /// The current delay timer value.
    pub fn get_delay_timer(&self) -> (t: u8)
        ensures
            t == self@.dt,
    {
        self.dt
    }

    /// Start the delay timer from a chosen value.
    pub fn set_delay_timer(&mut self, t: u8)
        requires
            old(self).wf(),
        ensures
            final(self).wf(),
            final(self)@ =~= (CpuSnap { dt: t, ..old(self)@ }),
    {
        self.dt = t;
    }

    /// The current sound timer value.
    pub fn get_sound_timer(&self) -> (t: u8)
        ensures
            t == self@.st,
    {
        self.st
    }

    /// Start the sound timer from a chosen value.
    pub fn set_sound_timer(&mut self, t: u8)
        requires
            old(self).wf(),
        ensures
            final(self).wf(),
            final(self)@ =~= (CpuSnap { st: t, ..old(self)@ }),
    {
        self.st = t;
    }

    /// Read one of the sixteen registers.
    pub fn get_reg(&self, r: u8) -> (b: u8)
        requires
            self.wf(),
            r < 16,
        ensures
            b == self@.v[r as int],
    {
        self.vregs[r as usize]
    }

    /// Overwrite one of the sixteen registers.
    pub fn set_reg(&mut self, r: u8, value: u8)
        requires
            old(self).wf(),
            r < 16,
        ensures
            final(self).wf(),
            final(self)@ =~= (CpuSnap { v: old(self)@.v.update(r as int, value), ..old(self)@ }),
    {
        self.vregs[r as usize] = value;
    }

    /// The instruction word stored big-endian at `addr`.
    pub open spec fn spec_word_at(mem: Seq<u8>, addr: int) -> u16 {
        (mem[addr] as u16) << 8 | (mem[addr + 1] as u16)
    }

    /// Fetch the big-endian instruction word at `addr`.
    pub fn fetch_instr_from_addr(&self, addr: usize) -> (w: u16)
        requires
            self.wf(),
            addr + 1 < MEMSIZE,
        ensures
            w == CPU::spec_word_at(self@.mem, addr as int),
    {
        (self.memory[addr] as u16) << 8u16 | (self.memory[addr + 1] as u16)
    }
}

/// A vector of `n` zero bytes.
fn zero_bytes(n: usize) -> (v: Vec<u8>)
    ensures
        v@ =~= Seq::new(n as nat, |a: int| 0u8),
{
    let mut v: Vec<u8> = Vec::new();
    while v.len() < n
        invariant
            v@ =~= Seq::new(v@.len(), |a: int| 0u8),
            v@.len() <= n,
        decreases n - v@.len(),
    {
        v.push(0);
    }
    v
}

} // verus!
