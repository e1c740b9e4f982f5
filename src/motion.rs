use vstd::prelude::*;
use vstd::arithmetic::div_mod::{
    lemma_div_is_ordered, lemma_div_multiples_vanish, lemma_div_pos_is_pos,
    lemma_fundamental_div_mod, lemma_mod_add_multiples_vanish, lemma_mod_pos_bound, lemma_small_mod,
};
use vstd::arithmetic::mul::lemma_mul_inequality;
use crate::consts::{ENEMY_HALF_W, HALF_WIDTH};
use crate::geometry::clamp;

verus! {

/// How an enemy drifts sideways while it descends.
#[derive(Clone, Copy, Debug, PartialEq, Eq, Structural)]
pub enum MotionKind {
    Straight,
    Sine,
    ZigZag,
}

/// Full scale of the sine samples below: a sample of `SINE_SCALE` stands for 1.
pub const SINE_SCALE: u64 = 1_000_000;

/// sin(i * pi / 32) for i in 0..=16, in millionths.
pub open spec fn quarter_sine(i: int) -> int {
    if i <= 0 { 0 }
    else if i == 1 { 98017 }
    else if i == 2 { 195090 }
    else if i == 3 { 290285 }
    else if i == 4 { 382683 }
    else if i == 5 { 471397 }
    else if i == 6 { 555570 }
    else if i == 7 { 634393 }
    else if i == 8 { 707107 }
    else if i == 9 { 773010 }
    else if i == 10 { 831470 }
    else if i == 11 { 881921 }
    else if i == 12 { 923880 }
    else if i == 13 { 956940 }
    else if i == 14 { 980785 }
    else if i == 15 { 995185 }
    else { 1000000 }
}

fn quarter_sine_at(i: u128) -> (r: u128)
    requires
        i <= 16,
    ensures
        r == quarter_sine(i as int),
{
    match i {
        0 => 0,
        1 => 98017,
        2 => 195090,
        3 => 290285,
        4 => 382683,
        5 => 471397,
        6 => 555570,
        7 => 634393,
        8 => 707107,
        9 => 773010,
        10 => 831470,
        11 => 881921,
        12 => 923880,
        13 => 956940,
        14 => 980785,
        15 => 995185,
        _ => 1000000,
    }
}

/// The rising quarter of a sine wave at `x` of a quarter of length `q`,
/// interpolated linearly between the table's points, in millionths.
pub open spec fn quarter_wave(x: int, q: int) -> int {
    let s = (16 * x) / q;
    let f = (16 * x) % q;
    if s >= 16 {
        quarter_sine(16)
    } else {
        quarter_sine(s) + (quarter_sine(s + 1) - quarter_sine(s)) * f / q
    }
}

/// `a * r / p` lies in `[0, a]` when `r` lies in `[0, p]`.
proof fn lemma_scaled_within(a: int, r: int, p: int)
    requires
        0 <= a,
        0 <= r <= p,
        0 < p,
    ensures
        0 <= a * r / p <= a,
{
    lemma_mul_inequality(r, p, a);
    assert(a * r <= a * p) by (nonlinear_arith)
        requires r * a <= p * a;
    assert(a * r >= 0) by (nonlinear_arith)
        requires a >= 0, r >= 0;
    lemma_div_is_ordered(a * r, a * p, p);
    assert(a * p == p * a) by (nonlinear_arith);
    lemma_div_multiples_vanish(a, p);
    lemma_div_pos_is_pos(a * r, p);
}

proof fn lemma_quarter_wave_bounded(x: int, q: int)
    requires
        0 <= x <= q,
        0 < q,
    ensures
        0 <= quarter_wave(x, q) <= SINE_SCALE,
{
    let s = (16 * x) / q;
    let f = (16 * x) % q;
    lemma_div_is_ordered(16 * x, 16 * q, q);
    assert(16 * q == q * 16) by (nonlinear_arith);
    lemma_div_multiples_vanish(16, q);
    lemma_div_pos_is_pos(16 * x, q);
    lemma_mod_pos_bound(16 * x, q);
    if s < 16 {
        let d = quarter_sine(s + 1) - quarter_sine(s);
        assert(0 <= d <= 1000000);
        lemma_scaled_within(d, f, q);
        assert(quarter_sine(s) + d <= 1000000);
    }
}

fn quarter_wave_exec(x: u128, q: u128) -> (r: u128)
    requires
        x <= q,
        0 < q <= 4 * (u64::MAX as int),
    ensures
        r == quarter_wave(x as int, q as int),
        r <= SINE_SCALE,
{
    proof {
        lemma_quarter_wave_bounded(x as int, q as int);
        lemma_div_is_ordered(16 * x as int, 16 * q as int, q as int);
        assert(16 * (q as int) == (q as int) * 16) by (nonlinear_arith);
        lemma_div_multiples_vanish(16, q as int);
        lemma_mod_pos_bound(16 * x as int, q as int);
    }
    let s = (16 * x) / q;
    let f = (16 * x) % q;
    if s >= 16 {
        1000000
    } else {
        let lo = quarter_sine_at(s);
        let hi = quarter_sine_at(s + 1);
        assert(lo <= hi);
        assert((hi - lo) * f <= 1000000 * (q as int)) by (nonlinear_arith)
            requires hi - lo <= 1000000, f < q, hi >= lo, f >= 0;
        lo + (hi - lo) * f / q
    }
}

/// Sideways offset of the Sine pattern, an approximation of
/// `amp * sin(2 * pi * t / period)`: the quarter wave is interpolated linearly
/// between the 17 table points above and mirrored into the other quarters.
/// It is exact at each quarter period, and off by at most 0.13% of `amp`
/// elsewhere (about 0.145 units at an amplitude of 120 units).
pub open spec fn sine_offset(amp: int, period: int, t: int) -> int {
    let r = 4 * (t % period);
    let quad = r / period;
    let x = r % period;
    if quad == 0 {
        amp * quarter_wave(x, period) / (SINE_SCALE as int)
    } else if quad == 1 {
        amp * quarter_wave(period - x, period) / (SINE_SCALE as int)
    } else if quad == 2 {
        -(amp * quarter_wave(x, period) / (SINE_SCALE as int))
    } else {
        -(amp * quarter_wave(period - x, period) / (SINE_SCALE as int))
    }
}

/// Sideways offset of the ZigZag pattern: a triangle wave between `-amp` and
/// `amp`, rising from 0 at the start of each period.
pub open spec fn zigzag_offset(amp: int, period: int, t: int) -> int {
    let r = 4 * (t % period);
    if r <= period {
        amp * r / period
    } else if r <= 2 * period {
        amp * (2 * period - r) / period
    } else if r <= 3 * period {
        -(amp * (r - 2 * period) / period)
    } else {
        -(amp * (4 * period - r) / period)
    }
}

pub open spec fn pattern_offset(kind: MotionKind, amp: int, period: int, t: int) -> int {
    match kind {
        MotionKind::Straight => 0,
        MotionKind::Sine => sine_offset(amp, period, t),
        MotionKind::ZigZag => zigzag_offset(amp, period, t),
    }
}

pub fn sine_offset_at(amp: u32, period: u64, t: u64) -> (r: i64)
    requires
        period > 0,
    ensures
        r == sine_offset(amp as int, period as int, t as int),
{
    let p = period as u128;
    let rr = 4 * ((t % period) as u128);
    let quad = rr / p;
    let x = rr % p;
    let a = amp as u128;
    proof {
        lemma_mod_pos_bound(t as int, period as int);
        lemma_mod_pos_bound(rr as int, p as int);
        lemma_div_is_ordered(rr as int, 4 * p as int, p as int);
        assert(4 * (p as int) == (p as int) * 4) by (nonlinear_arith);
        lemma_div_multiples_vanish(4, p as int);
    }
    let w = if quad == 0 || quad == 2 {
        quarter_wave_exec(x, p)
    } else {
        quarter_wave_exec(p - x, p)
    };
    proof {
        lemma_scaled_within(a as int, w as int, SINE_SCALE as int);
    }
    let m = (a * w / 1000000) as i64;
    if quad <= 1 {
        m
    } else {
        -m
    }
}

proof fn lemma_product_fits(a: int, y: int)
    requires
        0 <= a <= u32::MAX,
        0 <= y <= 4 * (u64::MAX as int),
    ensures
        a * y <= (u32::MAX as int) * (4 * (u64::MAX as int)),
{
    assert(a * y <= (u32::MAX as int) * (4 * (u64::MAX as int))) by (nonlinear_arith)
        requires 0 <= a <= u32::MAX, 0 <= y <= 4 * (u64::MAX as int);
}

pub fn zigzag_offset_at(amp: u32, period: u64, t: u64) -> (r: i64)
    requires
        period > 0,
    ensures
        r == zigzag_offset(amp as int, period as int, t as int),
{
    let p = period as u128;
    let rr = 4 * ((t % period) as u128);
    let a = amp as u128;
    proof {
        lemma_mod_pos_bound(t as int, period as int);
    }
    if rr <= p {
        proof {
            lemma_scaled_within(a as int, rr as int, p as int);
            lemma_product_fits(a as int, rr as int);
        }
        (a * rr / p) as i64
    } else if rr <= 2 * p {
        proof {
            lemma_scaled_within(a as int, 2 * p - rr, p as int);
            lemma_product_fits(a as int, 2 * p - rr);
        }
        (a * (2 * p - rr) / p) as i64
    } else if rr <= 3 * p {
        proof {
            lemma_scaled_within(a as int, rr - 2 * p, p as int);
            lemma_product_fits(a as int, rr - 2 * p);
        }
        -((a * (rr - 2 * p) / p) as i64)
    } else {
        proof {
            lemma_scaled_within(a as int, 4 * p - rr, p as int);
            lemma_product_fits(a as int, 4 * p - rr);
        }
        -((a * (4 * p - rr) / p) as i64)
    }
}

/// Sideways offset of `kind` at time `t` of a pattern of amplitude `amp` and
/// period `period`.
pub fn pattern_offset_at(kind: MotionKind, amp: u32, period: u64, t: u64) -> (r: i64)
    requires
        period > 0,
    ensures
        r == pattern_offset(kind, amp as int, period as int, t as int),
{
    match kind {
        MotionKind::Straight => 0,
        MotionKind::Sine => sine_offset_at(amp, period, t),
        MotionKind::ZigZag => zigzag_offset_at(amp, period, t),
    }
}

/// How far from the center an enemy's center may stand sideways.
pub open spec fn enemy_x_limit() -> int {
    HALF_WIDTH - ENEMY_HALF_W
}

/// An enemy's position across the screen: its anchor moved by the pattern's
/// offset, held inside the screen.
pub fn enemy_x(base_x: i64, offset: i64) -> (r: i64)
    ensures
        r == clamp(base_x + offset, -enemy_x_limit(), enemy_x_limit()),
{
    let v: i128 = base_x as i128 + offset as i128;
    let lim: i128 = (HALF_WIDTH - ENEMY_HALF_W) as i128;
    if v < -lim {
        -(HALF_WIDTH - ENEMY_HALF_W)
    } else if v > lim {
        HALF_WIDTH - ENEMY_HALF_W
    } else {
        v as i64
    }
}

/// The ZigZag offset is 0 at the start and middle of each period, `amp` a
/// quarter in and `-amp` three quarters in, and rises linearly over the first
/// quarter.
pub proof fn lemma_zigzag_landmarks(amp: int, period: int, t: int)
    requires
        amp >= 0,
        period > 0,
        period % 4 == 0,
        0 <= t <= period / 4,
    ensures
        zigzag_offset(amp, period, 0) == 0,
        zigzag_offset(amp, period, period / 4) == amp,
        zigzag_offset(amp, period, period / 2) == 0,
        zigzag_offset(amp, period, 3 * period / 4) == -amp,
        zigzag_offset(amp, period, t) == amp * (4 * t) / period,
{
    lemma_fundamental_div_mod(period, 4);
    let q = period / 4;
    assert(period == 4 * q);
    lemma_small_mod(0, period as nat);
    lemma_small_mod(q as nat, period as nat);
    lemma_small_mod((2 * q) as nat, period as nat);
    lemma_small_mod((3 * q) as nat, period as nat);
    lemma_small_mod(t as nat, period as nat);
    assert(period / 2 == 2 * q);
    assert(3 * period / 4 == 3 * q);
    assert(amp * 0 == 0) by (nonlinear_arith);
    lemma_div_multiples_vanish(amp, period);
    assert(amp * period == period * amp) by (nonlinear_arith);
}

/// The Sine offset is 0 at the start of each period, `amp` a quarter in and
/// `-amp` three quarters in.
pub proof fn lemma_sine_landmarks(amp: int, period: int)
    requires
        amp >= 0,
        period > 0,
        period % 4 == 0,
    ensures
        sine_offset(amp, period, 0) == 0,
        sine_offset(amp, period, period / 4) == amp,
        sine_offset(amp, period, 3 * period / 4) == -amp,
{
    lemma_fundamental_div_mod(period, 4);
    let q = period / 4;
    assert(period == 4 * q);
    lemma_small_mod(0, period as nat);
    lemma_small_mod(q as nat, period as nat);
    lemma_small_mod((3 * q) as nat, period as nat);
    assert(3 * period / 4 == 3 * q);
    // at zero
    assert(0int / period == 0 && 0int % period == 0) by {
        lemma_small_mod(0, period as nat);
    }
    assert((16 * 0int) / period == 0);
    assert(quarter_wave(0, period) == 0);
    assert(amp * 0 == 0) by (nonlinear_arith);
    // a quarter in: r == period
    assert(4 * q == period);
    lemma_div_multiples_vanish(1, period);
    assert(period / period == 1);
    lemma_fundamental_div_mod(period, period);
    assert(period % period == 0) by {
        lemma_mod_pos_bound(period, period);
        lemma_fundamental_div_mod(period, period);
    }
    assert(16 * period == period * 16) by (nonlinear_arith);
    lemma_div_multiples_vanish(16, period);
    assert(quarter_wave(period, period) == 1000000);
    assert(amp * 1000000 / 1000000 == amp) by {
        lemma_div_multiples_vanish(amp, 1000000);
        assert(amp * 1000000 == 1000000 * amp) by (nonlinear_arith);
    }
    // three quarters in: r == 3 * period
    assert(4 * (3 * q) == 3 * period);
    assert(3 * period == period * 3) by (nonlinear_arith);
    lemma_div_multiples_vanish(3, period);
    assert((3 * period) / period == 3);
    assert((3 * period) % period == 0) by {
        lemma_fundamental_div_mod(3 * period, period);
    }
}

/// The ZigZag offset repeats every period and stays within `[-amp, amp]`.
/// Over one period, with `s` the time into it, it rises as `amp * 4s / period`
/// to `amp` at a quarter, falls as `amp * (2 - 4s / period)` through 0 at the
/// half to `-amp` at three quarters, and rises as `amp * (4s / period - 4)` back
/// to 0 (each piece rounded toward zero).
pub proof fn lemma_zigzag_shape(amp: int, period: int, t: int)
    requires
        amp >= 0,
        period > 0,
        t >= 0,
    ensures
        zigzag_offset(amp, period, t + period) == zigzag_offset(amp, period, t),
        -amp <= zigzag_offset(amp, period, t) <= amp,
        ({
            let s = t % period;
            let o = zigzag_offset(amp, period, t);
            &&& 0 <= s < period
            &&& 4 * s <= period ==> o == amp * (4 * s) / period
            &&& period < 4 * s <= 2 * period ==> o == amp * (2 * period - 4 * s) / period
            &&& 2 * period < 4 * s <= 3 * period ==> o == -(amp * (4 * s - 2 * period) / period)
            &&& 3 * period < 4 * s ==> o == -(amp * (4 * period - 4 * s) / period)
        }),
{
    lemma_mod_add_multiples_vanish(t, period);
    assert((t + period) % period == t % period);
    lemma_mod_pos_bound(t, period);
    let r = 4 * (t % period);
    if r <= period {
        lemma_scaled_within(amp, r, period);
    } else if r <= 2 * period {
        lemma_scaled_within(amp, 2 * period - r, period);
    } else if r <= 3 * period {
        lemma_scaled_within(amp, r - 2 * period, period);
    } else {
        lemma_scaled_within(amp, 4 * period - r, period);
    }
}

} // verus!
