use shooter_core::motion::MotionKind;
use shooter_core::spawn::{pattern_for_wave, wave_x_at};

#[test]
fn wave_of_five_is_even_and_symmetric() {
    let xs: Vec<i64> = (0..5).map(|i| wave_x_at(i, 5)).collect();
    assert_eq!(xs, vec![-288_800_000, -144_400_000, 0, 144_400_000, 288_800_000]);
    for i in 0..5 {
        assert_eq!(xs[i], -xs[4 - i]);
    }
    for i in 0..4 {
        assert_eq!(xs[i + 1] - xs[i], 144_400_000);
    }
    // the margin is four fifths of an enemy's 14-unit half-width
    assert_eq!(xs[4], 300_000_000 - 11_200_000);
}

#[test]
fn wave_of_one_is_centered() {
    assert_eq!(wave_x_at(0, 1), 0);
}

#[test]
fn patterns_cycle_and_wrap() {
    assert_eq!(pattern_for_wave(0), MotionKind::Straight);
    assert_eq!(pattern_for_wave(1), MotionKind::Sine);
    assert_eq!(pattern_for_wave(2), MotionKind::ZigZag);
    assert_eq!(pattern_for_wave(3), MotionKind::Straight);
    assert_eq!(pattern_for_wave(u32::MAX), MotionKind::Straight);
}
