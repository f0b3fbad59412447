//! System-wide laws, proved once and for all inputs: calling and
//! returning, the real-time timer decay, and the key-wait state
//! machine.  The decoder's round trip lives next to the decoder, and
//! the ALU flag laws are part of each operation's own contract.

use vstd::prelude::*;

use vstd::arithmetic::div_mod::lemma_div_by_self;
use vstd::arithmetic::div_mod::lemma_div_is_ordered;
use vstd::arithmetic::div_mod::lemma_fundamental_div_mod;
use vstd::arithmetic::div_mod::lemma_fundamental_div_mod_converse;

use crate::cpu::CpuSnap;
use crate::cpu::STACK_LIMIT;
use crate::decode::Instr;
use crate::ops::StepError;
use crate::ops::sp_call;
use crate::ops::sp_ret;
use crate::system::SysSnap;
use crate::system::TICK_UNITS;
use crate::system::any_key;
use crate::system::first_key_from;
use crate::system::sp_first_key;
use crate::system::sp_step;
use crate::system::sp_timer;
use crate::system::sp_drain;
use crate::system::sp_dec;

verus! {

/// CALL then RET: after a call that fits on the stack and the return
/// that undoes it, the machine differs from where it started only in
/// the program counter, which sits at the instruction just after the
/// call; in particular the stack depth is back to its pre-call value.
pub proof fn lemma_call_then_ret(s: CpuSnap, nnn: u16)
    requires
        s.wf(),
        s.stack.len() < STACK_LIMIT,
        s.pc + 2 <= u16::MAX,
    ensures
        ({
            let (s1, r1) = sp_call(s, nnn);
            let (s2, r2) = sp_ret(s1);
            &&& r1 == Result::<(), StepError>::Ok(())
            &&& r2 == Result::<(), StepError>::Ok(())
            &&& s2 =~= (CpuSnap { pc: (s.pc + 2) as u16, ..s })
        }),
{
    let (s1, r1) = sp_call(s, nnn);
    assert(s1.stack.drop_last() =~= s.stack);
}

/// Feeding one tick after another: the system after a sequence of
/// timer updates.
pub open spec fn feed_timers(s: SysSnap, ts: Seq<u64>) -> SysSnap
    decreases ts.len(),
{
    if ts.len() == 0 {
        s
    } else {
        feed_timers(sp_timer(s, ts[0]), ts.drop_first())
    }
}

/// Total elapsed time of a sequence of ticks, in microseconds.
pub open spec fn sum_micros(ts: Seq<u64>) -> int
    decreases ts.len(),
{
    if ts.len() == 0 {
        0
    } else {
        ts[0] + sum_micros(ts.drop_first())
    }
}

proof fn lemma_sum_nonneg(ts: Seq<u64>)
    ensures
        sum_micros(ts) >= 0,
    decreases ts.len(),
{
    if ts.len() > 0 {
        lemma_sum_nonneg(ts.drop_first());
    }
}

proof fn lemma_sum_split(ts: Seq<u64>, n: int)
    requires
        0 <= n <= ts.len(),
    ensures
        sum_micros(ts) == sum_micros(ts.take(n)) + sum_micros(ts.skip(n)),
    decreases n,
{
    if n == 0 {
        assert(ts.take(0).len() == 0);
        assert(ts.skip(0) =~= ts);
    } else {
        let df = ts.drop_first();
        assert(ts.take(n).drop_first() =~= df.take(n - 1));
        assert(ts.take(n)[0] == ts[0]);
        assert(ts.skip(n) =~= df.skip(n - 1));
        lemma_sum_split(df, n - 1);
    }
}

/// Closed form of the accumulator drain: with `acc / 50000` no larger
/// than the delay timer, the drain subtracts exactly that many whole
/// intervals from the timer and leaves the remainder.
proof fn lemma_drain_closed(acc: int, dt: u8, st: u8)
    requires
        0 <= acc,
        acc / (TICK_UNITS as int) <= dt,
    ensures
        ({
            let (a2, d2, s2) = sp_drain(acc, dt, st);
            a2 == acc % (TICK_UNITS as int) && d2 == dt - acc / (TICK_UNITS as int)
        }),
    decreases acc,
{
    let u = TICK_UNITS as int;
    lemma_fundamental_div_mod(acc, u);
    if acc >= u {
        assert(acc - u == (acc / u - 1) * u + acc % u) by {
            assert((acc / u - 1) * u == (acc / u) * u - u) by (nonlinear_arith);
        }
        lemma_fundamental_div_mod_converse(acc - u, u, acc / u - 1, acc % u);
        assert(acc / u >= 1) by {
            lemma_div_is_ordered(u, acc, u);
            lemma_div_by_self(u);
        }
        lemma_drain_closed(acc - u, sp_dec(dt), sp_dec(st));
    } else {
        assert(acc == 0 * u + acc) by (nonlinear_arith);
        lemma_fundamental_div_mod_converse(acc, u, 0, acc);
    }
}

/// Induction backbone of the timer-decay law: along any sequence of
/// ticks, the accumulator and delay timer track the virtual total `u`
/// of thirds of microseconds accounted so far.
proof fn lemma_feed_invariant(s: SysSnap, ts: Seq<u64>, d0: int, u: int)
    requires
        0 <= u,
        0 <= d0 <= 255,
        s.acc == u % (TICK_UNITS as int),
        s.cpu.dt == d0 - u / (TICK_UNITS as int),
        (u + 3 * sum_micros(ts)) / (TICK_UNITS as int) <= d0,
    ensures
        feed_timers(s, ts).acc == (u + 3 * sum_micros(ts)) % (TICK_UNITS as int),
        feed_timers(s, ts).cpu.dt == d0 - (u + 3 * sum_micros(ts)) / (TICK_UNITS as int),
    decreases ts.len(),
{
    let iu = TICK_UNITS as int;
    if ts.len() > 0 {
        let t = ts[0];
        let df = ts.drop_first();
        let u1 = u + 3 * t;
        let w = s.acc + 3 * t;
        lemma_sum_nonneg(df);
        // u1 = iu * (u / iu) + w, so draining w extends the account of u to u1.
        lemma_fundamental_div_mod(u, iu);
        lemma_fundamental_div_mod(w, iu);
        assert(u1 == (u / iu + w / iu) * iu + w % iu) by {
            assert((u / iu + w / iu) * iu == (u / iu) * iu + (w / iu) * iu) by (nonlinear_arith);
        }
        lemma_fundamental_div_mod_converse(u1, iu, u / iu + w / iu, w % iu);
        // The drain precondition: whole intervals in w fit in the timer.
        assert(u1 <= u + 3 * sum_micros(ts));
        lemma_div_is_ordered(u1, u + 3 * sum_micros(ts), iu);
        lemma_drain_closed(w, s.cpu.dt, s.cpu.st);
        let s1 = sp_timer(s, t);
        assert(s1.acc == u1 % iu);
        assert(s1.cpu.dt == d0 - u1 / iu);
        lemma_feed_invariant(s1, df, d0, u1);
        assert(u1 + 3 * sum_micros(df) == u + 3 * sum_micros(ts));
    }
}

/// Timer decay: starting with the delay timer at 255 and an empty
/// accumulator, ticks totalling 1000 milliseconds, split into
/// intervals in any combination, leave the delay timer at exactly
/// 255 - 60 = 195; and after every prefix of the ticks it is still at
/// least 195, so it never reaches zero, let alone goes below it.
pub proof fn lemma_timer_decay(s: SysSnap, ts: Seq<u64>)
    requires
        s.cpu.dt == 255,
        s.acc == 0,
        sum_micros(ts) == 1_000_000,
    ensures
        feed_timers(s, ts).cpu.dt == 195,
        forall|n: int|
            0 <= n <= ts.len() ==> #[trigger] feed_timers(s, ts.take(n)).cpu.dt >= 195,
{
    let iu = TICK_UNITS as int;
    assert(3 * 1_000_000int / iu == 60);
    lemma_feed_invariant(s, ts, 255, 0);
    assert forall|n: int| 0 <= n <= ts.len() implies #[trigger] feed_timers(
        s,
        ts.take(n),
    ).cpu.dt >= 195 by {
        lemma_sum_split(ts, n);
        lemma_sum_nonneg(ts.take(n));
        lemma_sum_nonneg(ts.skip(n));
        lemma_div_is_ordered(3 * sum_micros(ts.take(n)), 3_000_000, iu);
        lemma_feed_invariant(s, ts.take(n), 255, 0);
    }
}

/// Stepping a sequence of times, with the random bytes each step would
/// consume.
pub open spec fn sp_step_many(s: SysSnap, rnds: Seq<u8>) -> SysSnap
    decreases rnds.len(),
{
    if rnds.len() == 0 {
        s
    } else {
        sp_step_many(sp_step(s, rnds[0]).0, rnds.drop_first())
    }
}

/// Where the lowest-pressed-key scan lands: at a pressed key with none
/// pressed below it, or at 16 when nothing is pressed.
proof fn lemma_first_key_props(keys: Seq<bool>, k: int)
    requires
        keys.len() == 16,
        0 <= k <= 16,
    ensures
        ({
            let f = first_key_from(keys, k);
            &&& k <= f <= 16
            &&& (f < 16 ==> keys[f] && (forall|i: int| k <= i < f ==> !keys[i]))
            &&& (f == 16 ==> forall|i: int| k <= i < 16 ==> !keys[i])
        }),
    decreases 16 - k,
{
    if k < 16 && !keys[k] {
        lemma_first_key_props(keys, k + 1);
    }
}

/// Key-wait, blocked: while a key-wait is pending and no key is
/// pressed, any number of further steps leaves the whole system,
/// program counter included, exactly unchanged and keeps reporting
/// success.
pub proof fn lemma_key_wait_blocks(s: SysSnap, rnds: Seq<u8>, x: u8)
    requires
        s.pending == Option::Some(Instr::LdKey { x }),
        !any_key(s.cpu.keys),
    ensures
        sp_step_many(s, rnds) == s,
        forall|b: u8| #[trigger] sp_step(s, b) == (s, Result::<(), StepError>::Ok(())),
    decreases rnds.len(),
{
    if rnds.len() > 0 {
        lemma_key_wait_blocks(s, rnds.drop_first(), x);
    }
}

/// Key-wait, completed: with a key-wait pending and some key pressed,
/// the next step writes the lowest pressed key's index into the
/// waited-on register, advances the program counter by exactly 2,
/// clears the pending state, and changes nothing else.
pub proof fn lemma_key_wait_completes(s: SysSnap, rnd: u8, x: u8)
    requires
        s.wf(),
        s.pending == Option::Some(Instr::LdKey { x }),
        any_key(s.cpu.keys),
        s.cpu.pc + 2 <= u16::MAX,
    ensures
        ({
            let (s2, r) = sp_step(s, rnd);
            let k = sp_first_key(s.cpu.keys);
            &&& r == Result::<(), StepError>::Ok(())
            &&& 0 <= k < 16
            &&& s.cpu.keys[k]
            &&& forall|i: int| 0 <= i < k ==> !s.cpu.keys[i]
            &&& s2 =~= (SysSnap {
                cpu: CpuSnap { pc: (s.cpu.pc + 2) as u16, v: s.cpu.v.update(x as int, k as u8), ..s.cpu },
                pending: Option::None,
                ..s
            })
        }),
{
    lemma_first_key_props(s.cpu.keys, 0);
    let f = first_key_from(s.cpu.keys, 0);
    if f == 16 {
        let k = choose|k: int| 0 <= k < 16 && s.cpu.keys[k];
        assert(false);
    }
}

} // verus!
