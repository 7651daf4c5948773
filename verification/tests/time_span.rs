use echosync::time_span::TimeSpan;

#[test]
fn constructors_and_accessors_agree() {
    let t = TimeSpan::new(2, 500_000_000);
    assert_eq!(t.as_millis(), 2_500);
    assert_eq!(t.as_secs(), 2);
    assert_eq!(t.subsec_nanos(), 500_000_000);
    assert_eq!(t.as_nanos(), 2_500_000_000);
    assert_eq!(TimeSpan::from_secs(3), TimeSpan::from_millis(3_000));
    assert_eq!(TimeSpan::from_nanos(1_999_999).as_millis(), 1);
    assert!(TimeSpan::zero().is_zero());
    assert!(!TimeSpan::from_nanos(1).is_zero());
}

#[test]
fn arithmetic_saturates_and_checks() {
    let a = TimeSpan::from_millis(5);
    let b = TimeSpan::from_millis(8);
    assert_eq!(a.add(b), TimeSpan::from_millis(13));
    assert_eq!(a.saturating_sub(b), TimeSpan::zero());
    assert_eq!(b.saturating_sub(a), TimeSpan::from_millis(3));
    let max = TimeSpan::new(u64::MAX, 999_999_999);
    assert_eq!(max.checked_add(TimeSpan::from_nanos(1)), None);
    assert_eq!(max.saturating_add(a), max);
    assert_eq!(TimeSpan::checked_from_nanos(u128::MAX), None);
    assert_eq!(TimeSpan::checked_from_nanos(7), Some(TimeSpan::from_nanos(7)));
}

#[test]
fn min_max_and_clamp() {
    let lo = TimeSpan::from_millis(10);
    let hi = TimeSpan::from_millis(20);
    assert_eq!(lo.min(hi), lo);
    assert_eq!(lo.max(hi), hi);
    assert_eq!(TimeSpan::from_millis(5).clamp(lo, hi), lo);
    assert_eq!(TimeSpan::from_millis(25).clamp(lo, hi), hi);
    assert_eq!(TimeSpan::from_millis(15).clamp(lo, hi), TimeSpan::from_millis(15));
}
