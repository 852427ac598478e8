use videolen::span::{Span, NANOS_PER_SEC};

#[test]
fn zero_is_empty() {
    let span = Span::zero();
    assert_eq!(span.as_secs(), 0);
    assert_eq!(span.subsec_nanos(), 0);
}

#[test]
fn from_secs_has_no_fraction() {
    let span = Span::from_secs(125);
    assert_eq!(span.as_secs(), 125);
    assert_eq!(span.subsec_nanos(), 0);
}

#[test]
fn microsecond_ticks_convert_exactly() {
    let span = Span::from_ticks(90_500_000, 1_000_000);
    assert_eq!(span.as_secs(), 90);
    assert_eq!(span.subsec_nanos(), 500_000_000);
}

#[test]
fn single_microsecond_is_a_thousand_nanoseconds() {
    let span = Span::from_ticks(1, 1_000_000);
    assert_eq!(span.as_secs(), 0);
    assert_eq!(span.subsec_nanos(), 1_000);
}

#[test]
fn millisecond_ticks_convert_exactly() {
    let span = Span::from_ticks(1_500, 1_000);
    assert_eq!(span.as_secs(), 1);
    assert_eq!(span.subsec_nanos(), 500_000_000);
}

#[test]
fn fraction_of_a_nanosecond_is_dropped() {
    let third = Span::from_ticks(1, 3);
    assert_eq!(third.as_secs(), 0);
    assert_eq!(third.subsec_nanos(), 333_333_333);
    let two_thirds = Span::from_ticks(2, 3);
    assert_eq!(two_thirds.subsec_nanos(), 666_666_666);
    let seven_thirds = Span::from_ticks(7, 3);
    assert_eq!(seven_thirds.as_secs(), 2);
    assert_eq!(seven_thirds.subsec_nanos(), 333_333_333);
}

#[test]
fn zero_ticks_are_the_empty_interval() {
    assert_eq!(Span::from_ticks(0, 1_000_000), Span::zero());
}

#[test]
fn whole_seconds_are_ticks_over_time_base() {
    let cases: Vec<(u64, u64)> = vec![
        (0, 1),
        (1, 1),
        (999_999, 1_000_000),
        (1_000_000, 1_000_000),
        (1_000_001, 1_000_000),
        (123_456_789_012, 1_000_000),
        (90_000, 90_000),
        (48_000 * 61 + 17, 48_000),
        (u64::MAX, 1),
        (u64::MAX, 7),
        (u64::MAX, u64::MAX),
        (u64::MAX - 1, u64::MAX),
        (i64::MAX as u64, 1_000_000),
    ];
    for (ticks, time_base) in cases {
        let span = Span::from_ticks(ticks, time_base);
        assert_eq!(span.as_secs(), ticks / time_base);
        let nanos = (ticks as u128) * 1_000_000_000 / (time_base as u128);
        assert_eq!(span.subsec_nanos() as u128, nanos % 1_000_000_000);
        assert!(span.subsec_nanos() < NANOS_PER_SEC);
    }
}

#[test]
fn largest_remainder_stays_below_a_second() {
    let span = Span::from_ticks(u64::MAX - 1, u64::MAX);
    assert_eq!(span.as_secs(), 0);
    assert_eq!(span.subsec_nanos(), 999_999_999);
}

#[test]
fn conversion_repeats_itself() {
    let first = Span::from_ticks(123_456_789, 1_000_000);
    let second = Span::from_ticks(123_456_789, 1_000_000);
    assert_eq!(first, second);
    assert_eq!(first.as_secs(), 123);
    assert_eq!(first.subsec_nanos(), 456_789_000);
}

#[test]
fn checked_add_sums_without_carry() {
    let a = Span::from_ticks(1_250, 1_000);
    let b = Span::from_ticks(2_500, 1_000);
    let sum = a.checked_add(b).unwrap();
    assert_eq!(sum.as_secs(), 3);
    assert_eq!(sum.subsec_nanos(), 750_000_000);
}

#[test]
fn checked_add_carries_into_seconds() {
    let a = Span::from_ticks(1_750, 1_000);
    let b = Span::from_ticks(2_500, 1_000);
    let sum = a.checked_add(b).unwrap();
    assert_eq!(sum.as_secs(), 4);
    assert_eq!(sum.subsec_nanos(), 250_000_000);
}

#[test]
fn checked_add_carry_to_a_whole_second() {
    let half = Span::from_ticks(500, 1_000);
    let sum = half.checked_add(half).unwrap();
    assert_eq!(sum, Span::from_secs(1));
}

#[test]
fn checked_add_is_commutative_on_samples() {
    let a = Span::from_ticks(999_999_999, 1_000_000_000);
    let b = Span::from_ticks(7_000_000_001, 1_000_000_000);
    assert_eq!(a.checked_add(b), b.checked_add(a));
    assert_eq!(a.checked_add(b).unwrap(), Span::from_secs(8));
}

#[test]
fn checked_add_reaches_the_limit() {
    let most = Span::from_secs(u64::MAX - 1);
    let rest = Span::from_ticks(1_999_999_999, 1_000_000_000);
    let sum = most.checked_add(rest).unwrap();
    assert_eq!(sum.as_secs(), u64::MAX);
    assert_eq!(sum.subsec_nanos(), 999_999_999);
}

#[test]
fn checked_add_refuses_too_many_seconds() {
    let most = Span::from_secs(u64::MAX);
    assert_eq!(most.checked_add(Span::from_secs(1)), None);
}

#[test]
fn checked_add_refuses_when_the_carry_overflows() {
    let most = Span::from_secs(u64::MAX).checked_add(Span::from_ticks(1, 2)).unwrap();
    assert_eq!(most.checked_add(Span::from_ticks(1, 2)), None);
    assert_eq!(most.checked_add(Span::zero()), Some(most));
}

#[test]
fn microseconds_agree_with_floating_point_seconds() {
    let counts: Vec<u64> = vec![
        0,
        1,
        999_999,
        1_000_000,
        30_000_000,
        90_000_000,
        125_000_000,
        123_456_789,
        3_600_000_000,
        86_400_000_000,
        123_456_789_012,
        4_000_000_000_000,
    ];
    for count in counts {
        let exact = Span::from_ticks(count, 1_000_000);
        let float = std::time::Duration::from_secs_f64(count as f64 / 1_000_000f64);
        assert_eq!(exact.as_secs(), float.as_secs());
        assert_eq!(exact.subsec_nanos(), float.subsec_nanos());
    }
}
