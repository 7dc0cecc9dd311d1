use typetest::app::timer::Timer;

#[test]
fn starts_and_reports_elapsed() {
    let mut t = Timer::default();
    assert!(!t.is_started());
    t.start(100);
    assert!(t.is_started());
    assert_eq!(t.elapsed_since_start(150), 50);
}

#[test]
fn elapsed_is_non_decreasing() {
    let mut t = Timer::default();
    t.start(100);
    let e1 = t.elapsed_since_start(150);
    let e2 = t.elapsed_since_start(400);
    assert!(e1 <= e2);
    assert_eq!(e1, 50);
    assert_eq!(e2, 300);
}

#[test]
fn duration_is_fixed_after_stop() {
    let mut t = Timer::default();
    t.start(1000);
    t.end(1750);
    assert_eq!(t.duration(), 750);
    assert_eq!(t.duration(), 750);
}

#[test]
fn reading_before_start_counts_as_zero() {
    let mut t = Timer::default();
    t.start(500);
    assert_eq!(t.elapsed_since_start(400), 0);
}
