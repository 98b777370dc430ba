use readbench::duration::TrialDuration;

#[test]
fn from_nanos_splits_seconds_and_remainder() {
    let d = TrialDuration::from_nanos(2_500_000_000);
    assert_eq!(d.as_secs(), 2);
    assert_eq!(d.subsec_nanos(), 500_000_000);
    assert_eq!(d.subsec_millis(), 500);
}

#[test]
fn new_keeps_parts() {
    let d = TrialDuration::new(7, 123_456_789);
    assert_eq!(d.as_secs(), 7);
    assert_eq!(d.subsec_nanos(), 123_456_789);
    assert_eq!(d.subsec_millis(), 123);
}

#[test]
fn checked_add_carries_into_seconds() {
    let a = TrialDuration::new(1, 600_000_000);
    let b = TrialDuration::new(2, 700_000_000);
    let sum = a.checked_add(b).unwrap();
    assert_eq!(sum.as_secs(), 4);
    assert_eq!(sum.subsec_nanos(), 300_000_000);
}

#[test]
fn checked_add_without_carry() {
    let a = TrialDuration::new(1, 100_000_000);
    let b = TrialDuration::new(2, 200_000_000);
    let sum = a.checked_add(b).unwrap();
    assert_eq!(sum.as_secs(), 3);
    assert_eq!(sum.subsec_nanos(), 300_000_000);
}

#[test]
fn checked_add_reports_overflow() {
    let a = TrialDuration::new(u64::MAX, 999_999_999);
    let b = TrialDuration::new(0, 1);
    assert!(a.checked_add(b).is_none());
    let c = TrialDuration::new(u64::MAX, 0);
    let d = TrialDuration::new(1, 0);
    assert!(c.checked_add(d).is_none());
}

#[test]
fn div_by_splits_evenly() {
    let d = TrialDuration::new(3, 0);
    let half = d.div_by(2);
    assert_eq!(half.as_secs(), 1);
    assert_eq!(half.subsec_millis(), 500);
}

#[test]
fn div_by_rounds_down() {
    let d = TrialDuration::from_nanos(1);
    let half = d.div_by(2);
    assert_eq!(half.as_secs(), 0);
    assert_eq!(half.subsec_nanos(), 0);
}

#[test]
fn div_by_one_is_identity() {
    let d = TrialDuration::new(5, 250_000_000);
    let q = d.div_by(1);
    assert_eq!(q, d);
}
