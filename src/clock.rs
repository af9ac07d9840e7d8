use vstd::prelude::*;
use embedded_time::duration::Milliseconds;
use embedded_time::fixed_point::FixedPoint;

verus! {

/// Milliseconds added to the software counter on every timer interrupt.
pub const TICK_MS: u32 = 20;

/// `a + b` on the 32-bit millisecond counter, wrapping at 2^32.
pub open spec fn wrap_add(a: u32, b: u32) -> u32 {
    ((a as int + b as int) % 0x1_0000_0000int) as u32
}

/// Relies on `Add` for `embedded_time::duration::Milliseconds<u32>`: the sum of
/// the two integer values; it panics where the sum overflows, which `requires`
/// leaves out.
#[verifier::external_body]
fn add_millis(a: u32, b: u32) -> (r: u32)
    requires
        a as int + b as int <= u32::MAX as int,
    ensures
        r == a + b,
{
    (Milliseconds::<u32>(a) + Milliseconds::<u32>(b)).integer()
}

/// The sum of two millisecond values on the wrapping 32-bit counter.
pub fn millis_sum(a: u32, b: u32) -> (r: u32)
    ensures
        r == wrap_add(a, b),
        a as int + b as int <= u32::MAX as int ==> r == a + b,
{
    if a <= u32::MAX - b {
        add_millis(a, b)
    } else {
        let r = a.wrapping_add(b);
        assert(r == wrap_add(a, b));
        r
    }
}

/// The software half of the monotonic clock: a counter of elapsed
/// milliseconds advanced by a fixed amount on each timer interrupt.
/// The hardware counter supplies the time since the last interrupt.
pub struct MonotonicClock {
    pub elapsed_ms: u32,
}

impl MonotonicClock {
    pub fn new() -> (c: MonotonicClock)
        ensures
            c.elapsed_ms == 0,
    {
        MonotonicClock { elapsed_ms: 0 }
    }

    /// The interrupt's update: the counter grows by one tick, wrapping at 2^32.
    pub fn on_tick(&mut self)
        ensures
            final(self).elapsed_ms == wrap_add(old(self).elapsed_ms, TICK_MS),
    {
        self.elapsed_ms = millis_sum(self.elapsed_ms, TICK_MS);
    }

    /// The time now: the hardware counter's value since the last interrupt
    /// plus the software counter, wrapping at 2^32.
    pub fn now(&self, sub_tick_ms: u32) -> (t: u32)
        ensures
            t == wrap_add(sub_tick_ms, self.elapsed_ms),
    {
        millis_sum(sub_tick_ms, self.elapsed_ms)
    }
}

/// The software counter after `k` timer interrupts, starting from `e`.
pub open spec fn after_ticks(e: u32, k: nat) -> u32
    decreases k,
{
    if k == 0 {
        e
    } else {
        wrap_add(after_ticks(e, (k - 1) as nat), TICK_MS)
    }
}

/// After `k` interrupts with no wraparound, the software counter has advanced
/// by exactly `TICK_MS * k` milliseconds.
pub proof fn lemma_ticks_advance(e: u32, k: nat)
    requires
        e as int + TICK_MS as int * k <= u32::MAX as int,
    ensures
        after_ticks(e, k) as int == e as int + TICK_MS as int * k,
    decreases k,
{
    if k > 0 {
        lemma_ticks_advance(e, (k - 1) as nat);
    }
}

/// Two successive reads of the clock never go backwards while it does not
/// wrap: the second read is taken `k` interrupts after the first, the
/// hardware counter never runs past one tick, and with no interrupt between
/// the reads it has not been reset.
pub proof fn lemma_now_monotonic(e: u32, s1: u32, k: nat, s2: u32)
    requires
        s1 <= TICK_MS,
        k == 0 ==> s1 <= s2,
        e as int + TICK_MS as int * k + s2 as int <= u32::MAX as int,
    ensures
        wrap_add(s1, e) <= wrap_add(s2, after_ticks(e, k)),
        after_ticks(e, k) as int >= e as int + TICK_MS as int * k,
{
    lemma_ticks_advance(e, k);
    if k > 0 {
        assert(TICK_MS as int * k >= TICK_MS as int) by (nonlinear_arith)
            requires k >= 1;
    }
}

} // verus!
