use osaka::time::Duration;

#[test]
fn zero_is_zero() {
    let duration = Duration::zero();
    assert!(duration.is_zero());
    assert_eq!(duration.as_nanos(), 0);
}

#[test]
fn max_is_largest_span() {
    assert_eq!(Duration::max(), Duration::new(u64::MAX, 1_000_000_000 - 1));
}

#[test]
fn from_secs_has_no_nanos() {
    let duration = Duration::from_secs(5);
    assert_eq!(5, duration.as_secs());
    assert_eq!(0, duration.subsec_nanos());
}

#[test]
fn from_millis_splits() {
    let duration = Duration::from_millis(2569);
    assert_eq!(2, duration.as_secs());
    assert_eq!(569_000_000, duration.subsec_nanos());
    assert_eq!(569, duration.subsec_millis());
}

#[test]
fn from_micros_splits() {
    let duration = Duration::from_micros(1_000_002);
    assert_eq!(1, duration.as_secs());
    assert_eq!(2000, duration.subsec_nanos());
    assert_eq!(2, duration.subsec_micros());
}

#[test]
fn from_nanos_splits() {
    let duration = Duration::from_nanos(1_000_000_123);
    assert_eq!(1, duration.as_secs());
    assert_eq!(123, duration.subsec_nanos());
}

#[test]
fn new_carries_nanos() {
    let duration = Duration::new(1, 2_500_000_000);
    assert_eq!(3, duration.as_secs());
    assert_eq!(500_000_000, duration.subsec_nanos());
    assert_eq!(duration.as_nanos(), 3_500_000_000);
}

#[test]
fn checked_add_examples() {
    assert_eq!(Duration::new(0, 0).checked_add(Duration::new(0, 1)), Some(Duration::new(0, 1)));
    assert_eq!(Duration::new(1, 0).checked_add(Duration::new(u64::MAX, 0)), None);
    assert_eq!(
        Duration::new(0, 600_000_000).checked_add(Duration::new(0, 700_000_000)),
        Some(Duration::new(1, 300_000_000))
    );
}

#[test]
fn saturating_add_examples() {
    assert_eq!(Duration::new(0, 0).saturating_add(Duration::new(0, 1)), Duration::new(0, 1));
    assert_eq!(Duration::new(1, 0).saturating_add(Duration::new(u64::MAX, 0)), Duration::max());
}

#[test]
fn checked_sub_examples() {
    assert_eq!(Duration::new(0, 1).checked_sub(Duration::new(0, 0)), Some(Duration::new(0, 1)));
    assert_eq!(Duration::new(0, 0).checked_sub(Duration::new(0, 1)), None);
    assert_eq!(
        Duration::new(2, 100).checked_sub(Duration::new(0, 200)),
        Some(Duration::new(1, 999_999_900))
    );
}

#[test]
fn saturating_sub_examples() {
    assert_eq!(Duration::new(0, 1).saturating_sub(Duration::new(0, 0)), Duration::new(0, 1));
    assert_eq!(Duration::new(0, 0).saturating_sub(Duration::new(0, 1)), Duration::zero());
}

#[test]
fn checked_mul_examples() {
    assert_eq!(Duration::new(0, 500_000_001).checked_mul(2), Some(Duration::new(1, 2)));
    assert_eq!(Duration::new(u64::MAX - 1, 0).checked_mul(2), None);
}

#[test]
fn saturating_mul_examples() {
    assert_eq!(Duration::new(0, 500_000_001).saturating_mul(2), Duration::new(1, 2));
    assert_eq!(Duration::new(u64::MAX - 1, 0).saturating_mul(2), Duration::max());
}

#[test]
fn checked_div_examples() {
    assert_eq!(Duration::new(2, 0).checked_div(2), Some(Duration::new(1, 0)));
    assert_eq!(Duration::new(1, 0).checked_div(2), Some(Duration::new(0, 500_000_000)));
    assert_eq!(Duration::new(2, 0).checked_div(0), None);
}

#[test]
fn checked_div_divides_parts_separately() {
    // One second and two nanoseconds in three parts: the seconds give
    // 333_333_333 nanoseconds, the two nanoseconds give none.
    assert_eq!(Duration::new(1, 2).checked_div(3), Some(Duration::new(0, 333_333_333)));
}

#[test]
fn operators_match_checked_forms() {
    let a = Duration::new(1, 700_000_000);
    let b = Duration::new(2, 600_000_000);
    assert_eq!(a + b, Duration::new(4, 300_000_000));
    assert_eq!(b - a, Duration::new(0, 900_000_000));
    assert_eq!(a * 3, Duration::new(5, 100_000_000));
    assert_eq!(3 * a, Duration::new(5, 100_000_000));
    assert_eq!(b / 2, Duration::new(1, 300_000_000));
    assert_eq!(Duration::default(), Duration::zero());
}

#[test]
fn spans_order_by_length() {
    assert!(Duration::new(1, 0) < Duration::new(1, 1));
    assert!(Duration::new(2, 0) > Duration::new(1, 999_999_999));
    assert!(Duration::from_millis(1000) == Duration::from_secs(1));
    assert!(Duration::from_millis(999) <= Duration::from_secs(1));
}

#[test]
fn whole_millis_and_micros() {
    let duration = Duration::new(2, 345_678_901);
    assert_eq!(duration.as_millis(), 2_345);
    assert_eq!(duration.as_micros(), 2_345_678);
    assert_eq!(Duration::max().as_millis(), u64::MAX as u128 * 1_000 + 999);
}
