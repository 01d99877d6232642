//! The audio master clock.

use vstd::prelude::*;

verus! {

/// A span of time: whole seconds and the nanoseconds past them.
#[derive(Clone, Copy, Debug, PartialEq, Eq, Structural)]
pub struct TimeSpan {
    pub secs: u64,
    pub nanos: u32,
}

pub const NANOS_PER_SEC: u64 = 1_000_000_000;

/// A rate of zero counts as one.
pub open spec fn effective_rate(rate: u32) -> nat {
    if rate == 0 {
        1
    } else {
        rate as nat
    }
}

/// Whole seconds that `played` samples take.
pub open spec fn clock_secs(played: u64, rate: u32) -> nat {
    if rate == 0 {
        played as nat
    } else {
        played as nat / rate as nat
    }
}

/// Nanoseconds past the whole seconds, rounded down.
pub open spec fn clock_nanos(played: u64, rate: u32) -> nat {
    if rate == 0 {
        0
    } else {
        (played as nat % rate as nat) * 1_000_000_000 / rate as nat
    }
}

/// How long `played` samples per channel last at the given rate.
pub fn clock_position(played: u64, rate: u32) -> (pos: TimeSpan)
    ensures
        pos.secs == clock_secs(played, rate),
        pos.nanos == clock_nanos(played, rate),
        pos.nanos < NANOS_PER_SEC,
{
    let sr: u64 = if rate == 0 {
        1
    } else {
        rate as u64
    };
    let frac: u64 = played % sr;
    assert(frac * NANOS_PER_SEC <= 0xffff_ffff * 1_000_000_000) by (nonlinear_arith)
        requires
            frac <= 0xffff_ffff,
            NANOS_PER_SEC == 1_000_000_000,
    ;
    let nanos: u64 = (frac * NANOS_PER_SEC) / sr;
    assert(nanos < NANOS_PER_SEC) by (nonlinear_arith)
        requires
            nanos == (frac * NANOS_PER_SEC) / sr as int,
            frac < sr,
            NANOS_PER_SEC == 1_000_000_000,
            sr > 0,
    ;
    TimeSpan { secs: played / sr, nanos: nanos as u32 }
}

/// The clock never runs backwards: more samples played is never an earlier
/// position.
pub proof fn law_clock_never_runs_back(earlier: u64, later: u64, rate: u32)
    requires
        earlier <= later,
    ensures
        clock_secs(earlier, rate) < clock_secs(later, rate) || (clock_secs(earlier, rate)
            == clock_secs(later, rate) && clock_nanos(earlier, rate) <= clock_nanos(later, rate)),
{
    let r = effective_rate(rate) as int;
    let a = earlier as int;
    let b = later as int;
    vstd::arithmetic::div_mod::lemma_div_is_ordered(a, b, r);
    if a / r == b / r {
        vstd::arithmetic::div_mod::lemma_fundamental_div_mod(a, r);
        vstd::arithmetic::div_mod::lemma_fundamental_div_mod(b, r);
        assert((a % r) * NANOS_PER_SEC <= (b % r) * NANOS_PER_SEC);
        vstd::arithmetic::div_mod::lemma_div_is_ordered(
            (a % r) * NANOS_PER_SEC,
            (b % r) * NANOS_PER_SEC,
            r,
        );
    }
}

/// The clock is the samples played over the rate, short of it by less than a
/// nanosecond.
pub proof fn law_clock_is_samples_over_rate(played: u64, rate: u32)
    ensures
        ({
            let r = effective_rate(rate);
            let nanos = clock_secs(played, rate) * NANOS_PER_SEC as nat + clock_nanos(played, rate);
            nanos * r <= played * NANOS_PER_SEC < (nanos + 1) * r
        }),
{
    let r = effective_rate(rate) as int;
    let p = played as int;
    let n = NANOS_PER_SEC as int;
    let q = p / r;
    let m = p % r;
    let f = (m * n) / r;
    let g = (m * n) % r;
    vstd::arithmetic::div_mod::lemma_fundamental_div_mod(p, r);
    vstd::arithmetic::div_mod::lemma_fundamental_div_mod(m * n, r);
    assert((q * n + f) * r <= p * n < (q * n + f + 1) * r) by (nonlinear_arith)
        requires
            p == r * q + m,
            m * n == r * f + g,
            0 <= g < r,
    ;
}

/// Whole seconds come out whole: `rate` samples are one second.
pub proof fn law_rate_samples_are_one_second(secs: u64, rate: u32)
    requires
        rate > 0,
        secs * rate <= u64::MAX,
    ensures
        clock_secs((secs * rate) as u64, rate) == secs,
        clock_nanos((secs * rate) as u64, rate) == 0,
{
    vstd::arithmetic::div_mod::lemma_fundamental_div_mod_converse(
        secs * rate,
        rate as int,
        secs as int,
        0,
    );
    assert(0 * NANOS_PER_SEC as int / rate as int == 0) by (nonlinear_arith)
        requires
            rate > 0,
    ;
}

} // verus!
