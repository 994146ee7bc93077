use voice_probe::clock::{current_millis, millis_from_parts};

#[test]
fn millis_from_seconds_and_fraction() {
    assert_eq!(millis_from_parts(0, 0), 0);
    assert_eq!(millis_from_parts(1_700_000_000, 123), 1_700_000_000_123);
    assert_eq!(millis_from_parts(9_223_372_036_854_775, 807), i64::MAX);
    assert_eq!(millis_from_parts(9_223_372_036_854_775, 808), i64::MAX);
    assert_eq!(millis_from_parts(u64::MAX, 999), i64::MAX);
}

#[test]
fn current_time_is_after_2020() {
    let a = current_millis();
    assert!(a > 1_577_836_800_000);
    assert!(current_millis() >= a);
}
