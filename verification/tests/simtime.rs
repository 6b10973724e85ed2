use d2simrs::simtime::{no_delta, SimTime, SimTimeDelta, MAX_NANOS};
use std::time::Duration;

#[test]
fn delta_from_duration_counts_nanoseconds() {
    let d = SimTimeDelta::from(Duration::from_millis(1500));
    assert_eq!(d.as_nanos(), 1_500_000_000);
    let d = SimTimeDelta::from_duration(Duration::new(2, 7));
    assert_eq!(d.as_nanos(), 2_000_000_007);
    assert_eq!(SimTimeDelta::from(Duration::MAX).as_nanos(), MAX_NANOS);
    assert_eq!(no_delta().as_nanos(), 0);
}

#[test]
fn delta_from_units() {
    assert_eq!(SimTimeDelta::from_secs(3).as_nanos(), 3_000_000_000);
    assert_eq!(SimTimeDelta::from_millis(3).as_nanos(), 3_000_000);
    assert_eq!(SimTimeDelta::from_micros(3).as_nanos(), 3_000);
    assert_eq!(SimTimeDelta::from_nanos(u128::MAX).as_nanos(), MAX_NANOS);
}

#[test]
fn time_plus_delta_and_back() {
    let t0 = SimTime::default();
    assert!(t0.is_zero());
    let t1 = t0 + SimTimeDelta::from_millis(2500);
    assert!(!t1.is_zero());
    assert_eq!(t1.as_rounds(), 2);
    assert_eq!(t1.as_millis(), 2500);
    assert_eq!(t1.as_nanos(), 2_500_000_000);
    let t2 = t1 + SimTimeDelta::from_secs(1);
    assert_eq!((t2 - t1).as_nanos(), 1_000_000_000);
    // the span to an earlier point is empty
    assert_eq!((t1 - t2).as_nanos(), 0);
    assert!(t1.is_before(&t2));
    assert!(!t2.is_before(&t1));
    assert!(!t1.is_before(&t1));
    assert!(t1 < t2);
}

#[test]
fn time_stops_at_the_end_of_the_clock() {
    let end = SimTime::from_nanos(MAX_NANOS);
    assert_eq!(end.as_rounds(), u64::MAX);
    let later = end + SimTimeDelta::from_secs(1);
    assert_eq!(later, end);
    assert_eq!(SimTime::from_nanos(MAX_NANOS + 1), end);
}

#[test]
fn advance_to_moves_the_clock() {
    let mut t = SimTime::default();
    let target = SimTime::from_nanos(42);
    t.advance_to(target);
    assert_eq!(t, target);
    t.advance_to(target);
    assert_eq!(t.as_nanos(), 42);
}
