//! Gain curves over time: how loud a sound is at a given moment of its
//! playback. Times are milliseconds, gains are millionths.

use crate::fixed::{saturated, ONE};
use vstd::prelude::*;

verus! {

/// `x` brought into the range from 0.0 to 1.0.
pub open spec fn clamped_to_fraction(x: int) -> int {
    if x < 0 {
        0
    } else if x > ONE {
        ONE as int
    } else {
        x
    }
}

/// The easing curve `3x^2 - 2x^3` at `x` brought into the range from 0.0 to
/// 1.0, rounded down to a millionth.
pub open spec fn smoothstep_of(x: int) -> int {
    let c = clamped_to_fraction(x);
    (c * c * (3 * ONE - 2 * c)) / (ONE * ONE)
}

/// How far `t` has come on the way from 0 to `duration`, as a fraction
/// between 0.0 and 1.0, rounded down to a millionth.
pub open spec fn progress(t: int, duration: int) -> int
    recommends
        duration > 0,
{
    if t <= 0 {
        0
    } else if t >= duration {
        ONE as int
    } else {
        (t * ONE) / duration
    }
}

/// The gain of a fade-in of length `duration` at time `t`.
pub open spec fn fadein_of(t: int, duration: int) -> int {
    smoothstep_of(progress(t, duration))
}

/// The gain of a fade-out of length `duration` at time `t`.
pub open spec fn fadeout_of(t: int, duration: int) -> int {
    smoothstep_of(ONE - progress(t, duration))
}

/// The slow ramp of the main alarm at time `t`: 0.007 a second, and 0.013 a
/// second more from the fifth second on, up to 1.0.
pub open spec fn slow_ramp_of(t: int) -> int {
    let late = if t > 5000 {
        t - 5000
    } else {
        0
    };
    let raised = 7 * t + 13 * late;
    if raised > ONE {
        ONE as int
    } else {
        saturated(raised)
    }
}

proof fn lemma_cubic_bounds(c: int)
    requires
        0 <= c <= ONE,
    ensures
        0 <= c * c * (3 * ONE - 2 * c) <= (ONE * ONE) * ONE,
{
    assert(0 <= c * c * (3 * ONE - 2 * c) <= (ONE * ONE) * ONE) by (nonlinear_arith)
        requires
            0 <= c <= ONE,
            ONE == 1_000_000,
    {
        let d = ONE - c;
        assert(d >= 0);
        assert(c * c >= 0);
        assert(3 * ONE - 2 * c >= 0);
        // ONE^3 - c^2 (3 ONE - 2c) == (ONE - c)^2 (ONE + 2c)
        assert((ONE * ONE) * ONE - c * c * (3 * ONE - 2 * c) == d * d * (ONE + 2 * c));
        assert(d * d * (ONE + 2 * c) >= 0);
    }
}

proof fn lemma_cubic_monotone(a: int, b: int)
    requires
        0 <= a <= b <= ONE,
    ensures
        a * a * (3 * ONE - 2 * a) <= b * b * (3 * ONE - 2 * b),
{
    assert(a * a * (3 * ONE - 2 * a) <= b * b * (3 * ONE - 2 * b)) by (nonlinear_arith)
        requires
            0 <= a <= b <= ONE,
            ONE == 1_000_000,
    {
        let d = b - a;
        let s = 3 * ONE * (a + b) - 2 * (a * a + a * b + b * b);
        assert(b * b * (3 * ONE - 2 * b) - a * a * (3 * ONE - 2 * a) == d * s);
        // 3 ONE (a + b) >= 3 b (a + b) and 3 b (a + b) - 2 (a^2 + ab + b^2) == (b - a)(b + 2a)
        assert(ONE * (a + b) >= b * (a + b));
        assert(3 * b * (a + b) - 2 * (a * a + a * b + b * b) == (b - a) * (b + 2 * a));
        assert((b - a) * (b + 2 * a) >= 0);
        assert(s >= 0);
        assert(d * s >= 0);
    }
}

/// The easing curve never decreases, and stays between 0.0 and 1.0.
pub proof fn lemma_smoothstep_monotone(x: int, y: int)
    requires
        x <= y,
    ensures
        0 <= smoothstep_of(x) <= smoothstep_of(y) <= ONE,
{
    let a = clamped_to_fraction(x);
    let b = clamped_to_fraction(y);
    let unit = ONE * ONE;
    lemma_cubic_bounds(a);
    lemma_cubic_bounds(b);
    lemma_cubic_monotone(a, b);
    let fa = a * a * (3 * ONE - 2 * a);
    let fb = b * b * (3 * ONE - 2 * b);
    assert(0 <= fa / unit <= fb / unit <= ONE) by (nonlinear_arith)
        requires
            0 <= fa <= fb <= unit * ONE,
            unit == 1_000_000_000_000,
            ONE == 1_000_000,
    ;
}

/// The easing curve starts at 0.0 and ends at 1.0.
pub proof fn lemma_smoothstep_ends()
    ensures
        smoothstep_of(0) == 0,
        smoothstep_of(ONE as int) == ONE,
{
    assert(clamped_to_fraction(0) == 0);
    assert(0int * 0 * (3 * 1_000_000 - 2 * 0) == 0);
    assert(1_000_000int * 1_000_000 == 1_000_000_000_000);
    assert(clamped_to_fraction(ONE as int) == 1_000_000);
    assert(1_000_000int * 1_000_000 * (3 * 1_000_000 - 2 * 1_000_000) == 1_000_000_000_000_000_000);
}

/// The easing curve `3x^2 - 2x^3`, for `x` brought into the range from 0.0
/// to 1.0.
pub fn smoothstep(x: i32) -> (y: i32)
    ensures
        y == smoothstep_of(x as int),
        0 <= y <= ONE,
{
    let c: i64 = if x < 0 {
        0
    } else if x > ONE {
        ONE as i64
    } else {
        x as i64
    };
    proof {
        lemma_cubic_bounds(c as int);
        lemma_smoothstep_monotone(x as int, x as int);
        assert(c * c <= ONE * ONE) by (nonlinear_arith)
            requires
                0 <= c <= ONE,
        ;
        assert(c * c >= 0) by (nonlinear_arith);
    }
    let cubic: i64 = c * c * (3 * (ONE as i64) - 2 * c);
    (cubic / ((ONE as i64) * (ONE as i64))) as i32
}


/// The progress from 0 to `duration` lies between 0.0 and 1.0 and never
/// decreases with time.
pub proof fn lemma_progress_monotone(t: int, later: int, duration: int)
    requires
        duration > 0,
        t <= later,
    ensures
        0 <= progress(t, duration) <= progress(later, duration) <= ONE,
{
    let unit = ONE as int;
    if 0 < t && t < duration {
        assert(0 <= (t * unit) / duration < unit) by (nonlinear_arith)
            requires
                0 < t < duration,
                unit > 0,
        ;
    }
    if 0 < later && later < duration {
        assert(0 <= (later * unit) / duration < unit) by (nonlinear_arith)
            requires
                0 < later < duration,
                unit > 0,
        ;
    }
    if 0 < t && later < duration {
        assert((t * unit) / duration <= (later * unit) / duration) by (nonlinear_arith)
            requires
                0 < t <= later,
                duration > 0,
                unit > 0,
        ;
    }
}

/// A fade-in is silent up to its start and at full gain from its end on.
pub proof fn lemma_fadein_ends(t: int, duration: int)
    requires
        duration > 0,
    ensures
        t <= 0 ==> fadein_of(t, duration) == 0,
        t >= duration ==> fadein_of(t, duration) == ONE,
{
    lemma_smoothstep_ends();
}

/// A fade-out is at full gain up to its start and silent from its end on.
pub proof fn lemma_fadeout_ends(t: int, duration: int)
    requires
        duration > 0,
    ensures
        t <= 0 ==> fadeout_of(t, duration) == ONE,
        t >= duration ==> fadeout_of(t, duration) == 0,
{
    lemma_smoothstep_ends();
}

/// A fade-in never gets quieter with time and a fade-out never louder.
pub proof fn lemma_fades_monotone(t: int, later: int, duration: int)
    requires
        duration > 0,
        t <= later,
    ensures
        0 <= fadein_of(t, duration) <= fadein_of(later, duration) <= ONE,
        0 <= fadeout_of(later, duration) <= fadeout_of(t, duration) <= ONE,
{
    lemma_progress_monotone(t, later, duration);
    lemma_smoothstep_monotone(progress(t, duration), progress(later, duration));
    lemma_smoothstep_monotone(ONE - progress(later, duration), ONE - progress(t, duration));
}

/// The slow ramp never exceeds 1.0 and never decreases with time.
pub proof fn lemma_slow_ramp_monotone(t: int, later: int)
    requires
        t <= later,
    ensures
        slow_ramp_of(t) <= slow_ramp_of(later) <= ONE,
{
}

/// How far `t` has come on the way from 0 to `duration`.
fn progress_at(t: i64, duration: i64) -> (p: i32)
    requires
        duration > 0,
    ensures
        p == progress(t as int, duration as int),
        0 <= p <= ONE,
{
    proof {
        lemma_progress_monotone(t as int, t as int, duration as int);
    }
    if t <= 0 {
        0
    } else if t >= duration {
        ONE
    } else {
        assert(0 <= t * ONE <= 0x7fff_ffff_ffff_ffff * 1_000_000) by (nonlinear_arith)
            requires
                0 < t <= 0x7fff_ffff_ffff_ffff,
                ONE == 1_000_000,
        ;
        (((t as i128) * (ONE as i128)) / (duration as i128)) as i32
    }
}

/// The gain of a fade-in that takes `duration` milliseconds, `t` milliseconds
/// after it began: silent before its start, at full gain after its end.
pub fn fadein(t: i64, duration: i64) -> (gain: i32)
    requires
        duration > 0,
    ensures
        gain == fadein_of(t as int, duration as int),
        0 <= gain <= ONE,
        t <= 0 ==> gain == 0,
        t >= duration ==> gain == ONE,
{
    proof {
        lemma_fadein_ends(t as int, duration as int);
    }
    smoothstep(progress_at(t, duration))
}

/// The gain of a fade-out that takes `duration` milliseconds, `t`
/// milliseconds after it began: at full gain before its start, silent after
/// its end.
pub fn fadeout(t: i64, duration: i64) -> (gain: i32)
    requires
        duration > 0,
    ensures
        gain == fadeout_of(t as int, duration as int),
        0 <= gain <= ONE,
        t <= 0 ==> gain == ONE,
        t >= duration ==> gain == 0,
{
    proof {
        lemma_fadeout_ends(t as int, duration as int);
    }
    smoothstep(ONE - progress_at(t, duration))
}

/// The gain of the main alarm `t` milliseconds after it began: a ramp that
/// is slower than a fade-in, so that the sleeper wakes gently.
pub fn fadein_slow(t: i64) -> (gain: i32)
    ensures
        gain == slow_ramp_of(t as int),
        gain <= ONE,
{
    let late: i128 = if t > 5000 {
        (t - 5000) as i128
    } else {
        0
    };
    let raised: i128 = 7 * (t as i128) + 13 * late;
    if raised > ONE as i128 {
        ONE
    } else if raised < i32::MIN as i128 {
        i32::MIN
    } else {
        raised as i32
    }
}

} // verus!
