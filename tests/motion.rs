use shooter_core::consts::{PATTERN_AMPLITUDE, PATTERN_PERIOD_US};
use shooter_core::motion::{enemy_x, pattern_offset_at, sine_offset_at, zigzag_offset_at, MotionKind};

const A: u32 = PATTERN_AMPLITUDE;
const P: u64 = PATTERN_PERIOD_US;

#[test]
fn sine_landmarks() {
    assert_eq!(sine_offset_at(A, P, 0), 0);
    assert_eq!(sine_offset_at(A, P, P / 4), 120_000_000);
    assert_eq!(sine_offset_at(A, P, P / 2), 0);
    assert_eq!(sine_offset_at(A, P, 3 * P / 4), -120_000_000);
    assert_eq!(sine_offset_at(A, P, P), 0);
}

#[test]
fn sine_between_landmarks() {
    // sin(pi / 4) is 0.707107 in the table
    assert_eq!(sine_offset_at(A, P, P / 8), 84_852_840);
    assert_eq!(sine_offset_at(A, P, 5 * P / 8), -84_852_840);
    // within 0.13% of the amplitude of the true sine over a whole period
    let mut t: u64 = 0;
    while t <= P {
        let s = sine_offset_at(A, P, t) as f64;
        let exact = 120e6 * (2.0 * std::f64::consts::PI * t as f64 / P as f64).sin();
        assert!((s - exact).abs() <= 0.0013 * 120e6, "t = {}", t);
        t += 500;
    }
}

#[test]
fn zigzag_landmarks() {
    assert_eq!(zigzag_offset_at(A, P, 0), 0);
    assert_eq!(zigzag_offset_at(A, P, P / 4), 120_000_000);
    assert_eq!(zigzag_offset_at(A, P, P / 2), 0);
    assert_eq!(zigzag_offset_at(A, P, 3 * P / 4), -120_000_000);
    assert_eq!(zigzag_offset_at(A, P, P + P / 4), 120_000_000);
}

#[test]
fn zigzag_is_piecewise_linear() {
    assert_eq!(zigzag_offset_at(A, P, P / 8), 60_000_000);
    assert_eq!(zigzag_offset_at(A, P, 3 * P / 8), 60_000_000);
    assert_eq!(zigzag_offset_at(A, P, 5 * P / 8), -60_000_000);
    assert_eq!(zigzag_offset_at(A, P, 7 * P / 8), -60_000_000);
    assert_eq!(zigzag_offset_at(A, P, 100_000), 30_000_000);
}

#[test]
fn straight_has_no_offset() {
    assert_eq!(pattern_offset_at(MotionKind::Straight, A, P, 12_345), 0);
    assert_eq!(pattern_offset_at(MotionKind::ZigZag, A, P, P / 4), 120_000_000);
    assert_eq!(pattern_offset_at(MotionKind::Sine, A, P, P / 4), 120_000_000);
}

#[test]
fn enemy_x_is_held_on_screen() {
    assert_eq!(enemy_x(0, 120_000_000), 120_000_000);
    assert_eq!(enemy_x(288_800_000, 120_000_000), 286_000_000);
    assert_eq!(enemy_x(-288_800_000, -120_000_000), -286_000_000);
    assert_eq!(enemy_x(i64::MAX, i64::MAX), 286_000_000);
}
