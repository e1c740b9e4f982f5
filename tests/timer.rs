use shooter_core::timer::Timer;

#[test]
fn repeating_timer_fires_once_per_period() {
    let mut t = Timer::new(120_000, true);
    for _ in 0..3 {
        t.tick(40_000);
        assert!(!t.finished());
        t.tick(40_000);
        assert!(!t.finished());
        t.tick(40_000);
        assert!(t.finished());
        assert_eq!(t.elapsed, 0);
    }
}

#[test]
fn repeating_timer_wraps_by_one_duration() {
    let mut t = Timer::new(100, true);
    t.tick(250);
    assert!(t.finished());
    assert_eq!(t.elapsed, 150);
    t.tick(10);
    assert!(t.finished());
    assert_eq!(t.elapsed, 60);
}

#[test]
fn one_shot_timer_stops_at_duration() {
    let mut t = Timer::new(100, false);
    t.tick(60);
    assert!(!t.finished());
    t.tick(60);
    assert!(t.finished());
    assert_eq!(t.elapsed, 100);
}

#[test]
fn reset_clears_finished() {
    let mut t = Timer::new(100, true);
    t.tick(100);
    assert!(t.finished());
    t.reset();
    assert!(!t.finished());
    assert_eq!(t.elapsed, 0);
}

#[test]
fn primed_timer_fires_on_next_tick() {
    let mut t = Timer::new(120_000, true);
    t.prime();
    assert_eq!(t.elapsed, 120_000);
    t.tick(1);
    assert!(t.finished());
}

#[test]
fn tick_saturates_elapsed() {
    let mut t = Timer::new(u64::MAX, true);
    t.tick(u64::MAX - 1);
    assert!(!t.finished());
    t.tick(5);
    assert!(t.finished());
    assert_eq!(t.elapsed, 0);
}
