use videolen::probe::DurationInfo;

const UNKNOWN: i64 = i64::MIN;

#[test]
fn reserved_value_means_unknown() {
    assert_eq!(DurationInfo::from_raw(UNKNOWN, UNKNOWN), Some(DurationInfo::Unknown));
}

#[test]
fn count_of_ticks_is_kept() {
    assert_eq!(DurationInfo::from_raw(90_000_000, UNKNOWN), Some(DurationInfo::Ticks(90_000_000)));
    assert_eq!(
        DurationInfo::from_raw(i64::MAX, UNKNOWN),
        Some(DurationInfo::Ticks(i64::MAX as u64))
    );
}

#[test]
fn zero_is_a_known_duration() {
    assert_eq!(DurationInfo::from_raw(0, UNKNOWN), Some(DurationInfo::Ticks(0)));
}

#[test]
fn negative_count_is_no_duration() {
    assert_eq!(DurationInfo::from_raw(-1, UNKNOWN), None);
    assert_eq!(DurationInfo::from_raw(i64::MIN + 1, UNKNOWN), None);
}

#[test]
fn reserved_value_wins_over_the_sign() {
    assert_eq!(DurationInfo::from_raw(-1, -1), Some(DurationInfo::Unknown));
    assert_eq!(DurationInfo::from_raw(0, 0), Some(DurationInfo::Unknown));
    assert_eq!(DurationInfo::from_raw(i64::MIN, -1), None);
    assert_eq!(DurationInfo::from_raw(5, 0), Some(DurationInfo::Ticks(5)));
}
