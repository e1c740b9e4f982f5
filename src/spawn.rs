use vstd::prelude::*;
use vstd::arithmetic::div_mod::{lemma_div_is_ordered, lemma_div_multiples_vanish, lemma_div_pos_is_pos};
use vstd::arithmetic::mul::lemma_mul_inequality;
use crate::consts::{HALF_WIDTH, WAVE_MARGIN, WAVE_SIZE};
use crate::motion::MotionKind;

verus! {

/// Waves cycle through Straight, Sine and ZigZag.
pub open spec fn wave_pattern(wave_index: u32) -> MotionKind {
    if wave_index % 3 == 0 {
        MotionKind::Straight
    } else if wave_index % 3 == 1 {
        MotionKind::Sine
    } else {
        MotionKind::ZigZag
    }
}

pub fn pattern_for_wave(wave_index: u32) -> (r: MotionKind)
    ensures
        r == wave_pattern(wave_index),
{
    match wave_index % 3 {
        0 => MotionKind::Straight,
        1 => MotionKind::Sine,
        _ => MotionKind::ZigZag,
    }
}

/// Outermost spawn position of a wave, on either side.
pub open spec fn wave_edge() -> int {
    HALF_WIDTH - WAVE_MARGIN
}

/// Position across the screen of enemy `i` of a wave of `n`: evenly spread
/// from `-wave_edge()` to `wave_edge()`, or centered when alone.
pub open spec fn wave_x(i: int, n: int) -> int {
    if n <= 1 {
        0
    } else {
        -wave_edge() + (2 * wave_edge()) * i / (n - 1)
    }
}

pub fn wave_x_at(i: usize, n: usize) -> (r: i64)
    requires
        i < n,
    ensures
        r == wave_x(i as int, n as int),
{
    if n <= 1 {
        0
    } else {
        let span: u128 = (2 * (HALF_WIDTH - WAVE_MARGIN)) as u128;
        proof {
            let w = 2 * wave_edge();
            lemma_mul_inequality(i as int, (n - 1) as int, w);
            assert(w * (i as int) <= w * ((n - 1) as int)) by (nonlinear_arith)
                requires (i as int) * w <= ((n - 1) as int) * w;
            assert(w * (i as int) >= 0) by (nonlinear_arith)
                requires w >= 0, i >= 0;
            lemma_div_is_ordered(w * i, w * (n - 1), (n - 1) as int);
            assert(w * (n - 1) == (n - 1) * w) by (nonlinear_arith);
            lemma_div_multiples_vanish(w, (n - 1) as int);
            lemma_div_pos_is_pos(w * i, (n - 1) as int);
            assert(span * (i as u128) <= 577_600_000 * (usize::MAX as int)) by (nonlinear_arith)
                requires span == 577_600_000, i <= usize::MAX;
        }
        let off = (span * (i as u128) / ((n - 1) as u128)) as i64;
        -(HALF_WIDTH - WAVE_MARGIN) + off
    }
}

/// A wave of the standard size is spread evenly, symmetric about the center,
/// its outermost enemies `wave_edge()` away from it; a wave of one is centered.
pub proof fn lemma_wave_layout(i: int)
    requires
        0 <= i < WAVE_SIZE,
    ensures
        wave_x(i, WAVE_SIZE as int) == -wave_edge() + 144_400_000 * i,
        wave_x(i, WAVE_SIZE as int) == -wave_x(WAVE_SIZE - 1 - i, WAVE_SIZE as int),
        wave_x(0, WAVE_SIZE as int) == -wave_edge(),
        wave_x(WAVE_SIZE - 1, WAVE_SIZE as int) == wave_edge(),
        i + 1 < WAVE_SIZE ==> wave_x(i + 1, WAVE_SIZE as int) - wave_x(i, WAVE_SIZE as int)
            == 144_400_000,
        wave_x(0, 1) == 0,
{
    assert(i == 0 || i == 1 || i == 2 || i == 3 || i == 4);
}

} // verus!
