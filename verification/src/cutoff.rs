//! The cut-off frequency of the low-pass filter over the time of a playback:
//! the alarm starts muffled and opens up, so that it does not startle.

use vstd::prelude::*;

verus! {

/// The cut-off frequency at the start of a playback, in hertz.
pub const CUTOFF_FLOOR: i64 = 800;

/// The highest cut-off frequency, in hertz. It lies above what can be heard,
/// so that a filter with it lets everything pass.
pub const CUTOFF_CEILING: i64 = 100_000;

/// For how long the cut-off frequency stays at its floor, in milliseconds.
pub const CUTOFF_GRACE: i64 = 10_000;

/// The time after the grace period by which the ceiling is reached for sure,
/// in milliseconds.
pub const CUTOFF_SPAN: i64 = 100_000;

/// The square root of `n`, rounded down.
pub open spec fn sqrt_floor(n: nat) -> nat
    decreases n,
{
    if n == 0 {
        0
    } else {
        let r = sqrt_floor((n - 1) as nat);
        if (r + 1) * (r + 1) <= n {
            r + 1
        } else {
            r
        }
    }
}

/// The rounded-down square root is the one number whose square is at most
/// `n` while the square of the next is more.
pub proof fn lemma_sqrt_floor(n: nat)
    ensures
        sqrt_floor(n) * sqrt_floor(n) <= n < (sqrt_floor(n) + 1) * (sqrt_floor(n) + 1),
    decreases n,
{
    let s = sqrt_floor(n);
    if n == 0 {
        assert(s == 0);
        assert(s * s == 0) by (nonlinear_arith)
            requires
                s == 0,
        ;
        assert((s + 1) * (s + 1) == 1) by (nonlinear_arith)
            requires
                s == 0,
        ;
    } else {
        lemma_sqrt_floor((n - 1) as nat);
        let r = sqrt_floor((n - 1) as nat);
        if (r + 1) * (r + 1) <= n {
            assert(s == r + 1);
            assert(s * s <= n);
            assert((r + 1) * (r + 1) < (s + 1) * (s + 1)) by (nonlinear_arith)
                requires
                    r >= 0,
                    s == r + 1,
            ;
        } else {
            assert(s == r);
        }
    }
}

proof fn lemma_sqrt_floor_is(n: nat, r: nat)
    requires
        r * r <= n < (r + 1) * (r + 1),
    ensures
        r == sqrt_floor(n),
{
    lemma_sqrt_floor(n);
    let s = sqrt_floor(n);
    if s < r {
        assert((s + 1) * (s + 1) <= r * r) by (nonlinear_arith)
            requires
                0 <= s,
                s + 1 <= r,
        ;
    } else if r < s {
        assert((r + 1) * (r + 1) <= s * s) by (nonlinear_arith)
            requires
                0 <= r,
                r + 1 <= s,
        ;
    }
}

/// The rounded-down square root never decreases.
pub proof fn lemma_sqrt_floor_monotone(a: nat, b: nat)
    requires
        a <= b,
    ensures
        sqrt_floor(a) <= sqrt_floor(b),
    decreases b,
{
    if a < b {
        lemma_sqrt_floor_monotone(a, (b - 1) as nat);
    }
}

/// The square root of `n`, rounded down.
pub fn isqrt(n: u64) -> (r: u64)
    ensures
        r == sqrt_floor(n as nat),
{
    let mut lo: u64 = 0;
    let mut hi: u64 = 0x1_0000_0000;
    while hi - lo > 1
        invariant
            lo < hi <= 0x1_0000_0000,
            lo * lo <= n < hi * hi,
        decreases hi - lo,
    {
        let mid = lo + (hi - lo) / 2;
        assert(mid * mid <= 0xffff_ffff * 0xffff_ffff) by (nonlinear_arith)
            requires
                0 <= mid <= 0xffff_ffff,
        ;
        if mid * mid <= n {
            lo = mid;
        } else {
            hi = mid;
        }
    }
    proof {
        lemma_sqrt_floor_is(n as nat, lo as nat);
    }
    lo
}

/// By how many hertz the cut-off frequency has risen `c` milliseconds after
/// the grace period: the time in seconds to the power of two and a half.
pub open spec fn cutoff_rise(c: nat) -> nat {
    (c * c * sqrt_floor(1000 * c)) / 1_000_000_000
}

/// The part of the time `t` that lies after the grace period, up to
/// `CUTOFF_SPAN`.
pub open spec fn time_after_grace(t: int) -> nat {
    if t <= CUTOFF_GRACE {
        0
    } else if t - CUTOFF_GRACE > CUTOFF_SPAN {
        CUTOFF_SPAN as nat
    } else {
        (t - CUTOFF_GRACE) as nat
    }
}

/// The cut-off frequency `t` milliseconds into a playback, in hertz: the
/// floor during the grace period, then rising up to the ceiling.
pub open spec fn cutoff_at(t: int) -> int {
    let raised = CUTOFF_FLOOR + cutoff_rise(time_after_grace(t));
    if raised > CUTOFF_CEILING {
        CUTOFF_CEILING as int
    } else {
        raised
    }
}

proof fn lemma_rise_monotone(c: nat, d: nat)
    requires
        c <= d,
    ensures
        cutoff_rise(c) <= cutoff_rise(d),
{
    lemma_sqrt_floor_monotone(1000 * c, 1000 * d);
    let r = sqrt_floor(1000 * c);
    let s = sqrt_floor(1000 * d);
    assert(c * c * r <= d * d * s) by (nonlinear_arith)
        requires
            0 <= c <= d,
            0 <= r <= s,
    {
        assert(c * c <= d * d);
        assert(c * c * r <= d * d * r);
        assert(d * d * r <= d * d * s);
    }
    assert((c * c * r) / 1_000_000_000 <= (d * d * s) / 1_000_000_000) by (nonlinear_arith)
        requires
            c * c * r <= d * d * s,
    ;
}

/// The cut-off frequency never falls with time, and it stays between its
/// floor and its ceiling.
pub proof fn lemma_cutoff_monotone(t: int, later: int)
    requires
        t <= later,
    ensures
        CUTOFF_FLOOR <= cutoff_at(t) <= cutoff_at(later) <= CUTOFF_CEILING,
{
    lemma_rise_monotone(time_after_grace(t), time_after_grace(later));
}

/// The cut-off frequency is at its floor throughout the grace period, and at
/// its ceiling once `CUTOFF_SPAN` has passed after it.
pub proof fn lemma_cutoff_ends(t: int)
    ensures
        t <= CUTOFF_GRACE ==> cutoff_at(t) == CUTOFF_FLOOR,
        t >= CUTOFF_GRACE + CUTOFF_SPAN ==> cutoff_at(t) == CUTOFF_CEILING,
{
    if t <= CUTOFF_GRACE {
        assert(sqrt_floor(0) == 0);
        assert(0nat * 0nat * 0nat == 0);
        assert(1000 * 0nat == 0);
    }
    if t >= CUTOFF_GRACE + CUTOFF_SPAN {
        assert(100_000_000nat == 1000 * (CUTOFF_SPAN as nat));
        assert(10_000nat * 10_000nat == 100_000_000);
        assert(10_001nat * 10_001nat > 100_000_000);
        lemma_sqrt_floor_is(100_000_000, 10_000);
        assert(100_000nat * 100_000nat * 10_000nat == 100_000_000_000_000);
    }
}

/// The cut-off frequency of the low-pass filter `t` milliseconds into a
/// playback, in hertz. It stays at 800 Hz for ten seconds and then rises
/// with the time to the power of two and a half, up to 100 kHz.
pub fn frequency_cutoff_lowpass(t: i64) -> (hz: i64)
    ensures
        hz == cutoff_at(t as int),
        CUTOFF_FLOOR <= hz <= CUTOFF_CEILING,
{
    let c: u64 = if t <= CUTOFF_GRACE {
        0
    } else if t - CUTOFF_GRACE > CUTOFF_SPAN {
        CUTOFF_SPAN as u64
    } else {
        (t - CUTOFF_GRACE) as u64
    };
    let r = isqrt(1000 * c);
    proof {
        lemma_cutoff_monotone(t as int, t as int);
        lemma_sqrt_floor((1000 * c) as nat);
        assert(r <= 10_000) by (nonlinear_arith)
            requires
                r * r <= 1000 * c,
                c <= 100_000,
                r >= 0,
        ;
        assert(c * c * r <= 100_000 * 100_000 * 10_000) by (nonlinear_arith)
            requires
                0 <= c <= 100_000,
                0 <= r <= 10_000,
        {
            assert(c * c <= 100_000 * 100_000);
            assert(c * c * r <= 100_000 * 100_000 * r);
        }
        assert(c * c <= 100_000 * 100_000) by (nonlinear_arith)
            requires
                0 <= c <= 100_000,
        ;
    }
    let raised: u64 = (CUTOFF_FLOOR as u64) + (c * c * r) / 1_000_000_000;
    if raised > CUTOFF_CEILING as u64 {
        CUTOFF_CEILING
    } else {
        raised as i64
    }
}

/// The cut-off frequency of a playback at time `t`: that of the low-pass
/// curve where the playback is filtered, and the ceiling, which lets
/// everything pass, where it is not.
pub fn playback_cutoff(lowpass: bool, t: i64) -> (hz: i64)
    ensures
        hz == if lowpass {
            cutoff_at(t as int)
        } else {
            CUTOFF_CEILING as int
        },
        CUTOFF_FLOOR <= hz <= CUTOFF_CEILING,
{
    if lowpass {
        frequency_cutoff_lowpass(t)
    } else {
        CUTOFF_CEILING
    }
}

} // verus!
