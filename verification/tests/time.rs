use discrivener::time::{elapsed_since, now, Duration, SystemTime};

#[test]
fn wall_clock_reads_nanoseconds_since_the_epoch() {
    let t = now();
    // later than 2020-09-13, earlier than 2200
    assert!(t.nanos > 1_600_000_000_000_000_000);
    assert!(t.nanos < 7_258_118_400_000_000_000);
    assert!(now().nanos >= t.nanos);
}

#[test]
fn monotonic_clock_measures_elapsed_time() {
    let start = std::time::Instant::now();
    while start.elapsed() < std::time::Duration::from_millis(5) {}
    let d = elapsed_since(&start);
    assert!(d.nanos >= 5_000_000);
    assert!(d.nanos < 60_000_000_000);
}

#[test]
fn time_arithmetic() {
    let d = Duration::from_millis(1500);
    assert_eq!(d.as_millis(), 1500);
    assert_eq!(d.as_nanos(), 1_500_000_000);
    assert_eq!(d.plus(Duration::from_secs(1)), Duration::from_nanos(2_500_000_000));
    assert_eq!(d.minus(Duration::from_millis(500)), Duration::from_secs(1));
    assert!(Duration::zero().is_zero());
    let t = SystemTime::from_nanos(10);
    assert_eq!(t.plus(Duration::from_nanos(5)), SystemTime::from_nanos(15));
    assert_eq!(t.minus(Duration::from_nanos(5)), SystemTime::from_nanos(5));
    assert_eq!(t.duration_since(SystemTime::from_nanos(4)), Some(Duration::from_nanos(6)));
    assert_eq!(t.duration_since(SystemTime::from_nanos(11)), None);
}
