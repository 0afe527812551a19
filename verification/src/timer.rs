//! GameCube timebase emulation. The timebase runs at a quarter of the
//! 162 MHz bus clock, i.e. 40.5 MHz.
use vstd::prelude::*;
use std::time::Instant;

verus! {

#[verifier::external_type_specification]
#[verifier::external_body]
pub struct ExInstant(Instant);

/// Timebase frequency: 40.5 MHz.
pub const TIMEBASE_FREQ: u64 = 40_500_000;

/// Bus clock frequency: 162 MHz.
pub const BUS_CLOCK: u64 = 162_000_000;

/// The current instant (`Instant::now`). Nothing is promised of its value.
#[verifier::external_body]
fn instant_now() -> Instant {
    Instant::now()
}

/// Nanoseconds elapsed since `start` (`Instant::elapsed`), truncated to 64
/// bits. It depends on the clock, so nothing is promised of its value.
#[verifier::external_body]
fn elapsed_nanos(start: &Instant) -> u64 {
    start.elapsed().as_nanos() as u64
}

/// Timebase ticks in `nanos` nanoseconds, rounded down.
pub open spec fn spec_ticks_from_nanos(nanos: u64) -> u64 {
    (nanos as int * TIMEBASE_FREQ as int / 1_000_000_000) as u64
}

/// Timebase ticks in `nanos` nanoseconds, rounded down; the product is
/// taken in 128 bits, and the quotient always fits in 64.
pub fn ticks_from_nanos(nanos: u64) -> (t: u64)
    ensures
        t == spec_ticks_from_nanos(nanos),
        t as int == nanos as int * TIMEBASE_FREQ as int / 1_000_000_000,
{
    let n: u128 = nanos as u128;
    assert(n * 40_500_000 < 0x1_0000_0000_0000_0000_0000_0000_0000_0000) by (nonlinear_arith)
        requires
            n < 0x1_0000_0000_0000_0000,
    ;
    let q: u128 = n * 40_500_000u128 / 1_000_000_000u128;
    assert(q <= n) by (nonlinear_arith)
        requires
            q == n * 40_500_000 / 1_000_000_000,
    ;
    q as u64
}

pub struct OsTimer {
    start: Instant,
}

impl OsTimer {
    /// A timer started now.
    pub fn new() -> OsTimer {
        OsTimer { start: instant_now() }
    }

    /// Restarts the timer.
    pub fn reset(&mut self) {
        self.start = instant_now();
    }

    /// The full 64-bit timebase counter (`OSGetTime`): ticks elapsed since the
    /// timer started.
    pub fn get_time(&self) -> (t: u64)
        ensures
            exists|n: u64| t == spec_ticks_from_nanos(n),
    {
        let nanos = elapsed_nanos(&self.start);
        ticks_from_nanos(nanos)
    }

    /// The low 32 bits of the timebase counter (`OSGetTick`).
    pub fn get_tick(&self) -> (t: u32)
        ensures
            exists|n: u64| t == spec_ticks_from_nanos(n) as u32,
    {
        self.get_time() as u32
    }

    /// Ticks from `tick0` to `tick1`, across a 32-bit wrap.
    pub fn diff_tick(tick1: u32, tick0: u32) -> (d: u32)
        ensures
            d == (if tick1 >= tick0 { tick1 - tick0 } else { tick1 - tick0 + 0x1_0000_0000 }),
    {
        tick1.wrapping_sub(tick0)
    }

    /// Milliseconds in `ticks` timebase ticks, rounded down.
    pub fn ticks_to_millis(ticks: u64) -> (ms: u64)
        requires
            ticks * 1000 <= u64::MAX,
        ensures
            ms == ticks * 1000 / TIMEBASE_FREQ as int,
    {
        ticks * 1000 / TIMEBASE_FREQ
    }

    /// Timebase ticks in `ms` milliseconds, rounded down.
    pub fn millis_to_ticks(ms: u64) -> (ticks: u64)
        requires
            ms * TIMEBASE_FREQ <= u64::MAX,
        ensures
            ticks == ms * TIMEBASE_FREQ as int / 1000,
    {
        ms * TIMEBASE_FREQ / 1000
    }
}

impl Default for OsTimer {
    fn default() -> Self {
        Self::new()
    }
}

/// Converting milliseconds to ticks and back gives the milliseconds again.
pub proof fn law_millis_roundtrip(ms: u64)
    requires
        ms * TIMEBASE_FREQ <= u64::MAX,
    ensures
        (ms * TIMEBASE_FREQ as int / 1000) * 1000 <= u64::MAX,
        (ms * TIMEBASE_FREQ as int / 1000) * 1000 / TIMEBASE_FREQ as int == ms,
{
    let m = ms as int;
    assert(m * 40_500_000 / 1000 == m * 40_500) by (nonlinear_arith);
    assert(m * 40_500 * 1000 == m * 40_500_000) by (nonlinear_arith);
    assert(m * 40_500_000 / 40_500_000 == m) by (nonlinear_arith);
}

/// The tick difference undoes a wrapping advance of the counter.
pub proof fn law_diff_tick_inverts_advance(tick0: u32, delta: u32)
    ensures
        ({
            let tick1 = ((tick0 as int + delta as int) % 0x1_0000_0000) as u32;
            (if tick1 >= tick0 { tick1 - tick0 } else { tick1 - tick0 + 0x1_0000_0000 }) == delta
        }),
{
}

/// The timebase counter never runs backwards: more elapsed nanoseconds give
/// at least as many ticks.
pub proof fn law_ticks_monotone(a: u64, b: u64)
    requires
        a <= b,
    ensures
        spec_ticks_from_nanos(a) <= spec_ticks_from_nanos(b),
{
    let x = a as int * TIMEBASE_FREQ as int;
    let y = b as int * TIMEBASE_FREQ as int;
    assert(x <= y) by (nonlinear_arith)
        requires
            a <= b,
            x == a as int * 40_500_000,
            y == b as int * 40_500_000,
    ;
    assert(x / 1_000_000_000 <= y / 1_000_000_000) by (nonlinear_arith)
        requires
            0 <= x <= y,
    ;
    assert(y / 1_000_000_000 <= b) by (nonlinear_arith)
        requires
            y == b as int * 40_500_000,
            b >= 0,
    ;
}

} // verus!
