use timewarden::time::{MonoInstant, TimeOfDay, Timestamp, Weekday, TIMESTAMP_LIMIT};

#[test]
fn weekday_numbers_start_at_monday() {
    assert_eq!(Weekday::Mon.num_days_from_monday(), 0);
    assert_eq!(Weekday::Wed.num_days_from_monday(), 2);
    assert_eq!(Weekday::Sun.num_days_from_monday(), 6);
    for n in 0..7u32 {
        let day = Weekday::from_days_from_monday(n).unwrap();
        assert_eq!(day.num_days_from_monday(), n);
    }
    assert_eq!(Weekday::from_days_from_monday(7), None);
    assert_eq!(Weekday::from_days_from_monday(u32::MAX), None);
}

#[test]
fn time_of_day_from_parts() {
    assert_eq!(TimeOfDay::from_hms_opt(9, 0, 0), Some(TimeOfDay { secs: 32_400, frac: 0 }));
    assert_eq!(TimeOfDay::from_hms_opt(23, 59, 59), Some(TimeOfDay { secs: 86_399, frac: 0 }));
    assert_eq!(TimeOfDay::from_hms_opt(24, 0, 0), None);
    assert_eq!(TimeOfDay::from_hms_opt(0, 60, 0), None);
    assert_eq!(TimeOfDay::from_hms_opt(0, 0, 60), None);
}

#[test]
fn time_of_day_validity() {
    assert!(TimeOfDay { secs: 0, frac: 0 }.is_well_formed());
    assert!(TimeOfDay { secs: 86_399, frac: 999_999_999 }.is_well_formed());
    assert!(TimeOfDay { secs: 86_399, frac: 1_999_999_999 }.is_well_formed());
    assert!(!TimeOfDay { secs: 86_400, frac: 0 }.is_well_formed());
    assert!(!TimeOfDay { secs: 10, frac: 1_000_000_000 }.is_well_formed());
    assert!(!TimeOfDay { secs: 59, frac: 2_000_000_000 }.is_well_formed());
}

#[test]
fn time_of_day_order() {
    let a = TimeOfDay { secs: 10, frac: 5 };
    let b = TimeOfDay { secs: 10, frac: 6 };
    let c = TimeOfDay { secs: 11, frac: 0 };
    assert!(a.is_at_or_before(&a));
    assert!(a.is_at_or_before(&b));
    assert!(!b.is_at_or_before(&a));
    assert!(b.is_at_or_before(&c));
    assert!(!c.is_at_or_before(&b));
}

#[test]
fn timestamp_range() {
    assert!(Timestamp::new(0, 0).is_some());
    assert!(Timestamp::new(TIMESTAMP_LIMIT, 999_999_999).is_some());
    assert!(Timestamp::new(-TIMESTAMP_LIMIT, 0).is_some());
    assert!(Timestamp::new(TIMESTAMP_LIMIT + 1, 0).is_none());
    assert!(Timestamp::new(-TIMESTAMP_LIMIT - 1, 0).is_none());
    assert!(Timestamp::new(0, 1_000_000_000).is_none());
    assert_eq!(Timestamp::from_secs(77), Some(Timestamp { secs: 77, nanos: 0 }));
    assert_eq!(Timestamp::from_secs(i64::MAX), None);
    assert_eq!(Timestamp { secs: 77, nanos: 3 }.timestamp(), 77);
}

#[test]
fn timestamp_order_and_latest() {
    let a = Timestamp { secs: -1, nanos: 999_999_999 };
    let b = Timestamp { secs: 0, nanos: 0 };
    let c = Timestamp { secs: 0, nanos: 1 };
    assert!(a.is_at_or_before(&b));
    assert!(b.is_at_or_before(&c));
    assert!(!c.is_at_or_before(&b));
    assert!(b.is_at_or_before(&b));
    assert_eq!(a.latest(c), c);
    assert_eq!(c.latest(a), c);
}

#[test]
fn seconds_between_timestamps_round_down() {
    let start = Timestamp { secs: 100, nanos: 900_000_000 };
    assert_eq!(start.seconds_until(&Timestamp { secs: 102, nanos: 100_000_000 }), 1);
    assert_eq!(start.seconds_until(&Timestamp { secs: 102, nanos: 900_000_000 }), 2);
    assert_eq!(start.seconds_until(&Timestamp { secs: 100, nanos: 900_000_000 }), 0);
    assert_eq!(start.seconds_until(&Timestamp { secs: 101, nanos: 899_999_999 }), 0);
    assert_eq!(start.seconds_until(&Timestamp { secs: 50, nanos: 0 }), 0);
    let low = Timestamp { secs: -TIMESTAMP_LIMIT, nanos: 1 };
    let high = Timestamp { secs: TIMESTAMP_LIMIT, nanos: 0 };
    assert_eq!(low.seconds_until(&high), 2 * TIMESTAMP_LIMIT - 1);
    let before = Timestamp { secs: -5, nanos: 500_000_000 };
    assert_eq!(before.seconds_until(&Timestamp { secs: 5, nanos: 0 }), 9);
}

#[test]
fn day_bounds_in_utc() {
    let t = Timestamp { secs: 1_700_000_000, nanos: 5 };
    assert_eq!(t.day_bounds(), (1_699_920_000, 1_700_006_399));
    assert_eq!(Timestamp { secs: 0, nanos: 0 }.day_bounds(), (0, 86_399));
    assert_eq!(Timestamp { secs: 86_399, nanos: 0 }.day_bounds(), (0, 86_399));
    assert_eq!(Timestamp { secs: 86_400, nanos: 0 }.day_bounds(), (86_400, 172_799));
    assert_eq!(Timestamp { secs: -1, nanos: 0 }.day_bounds(), (-86_400, -1));
    assert_eq!(Timestamp { secs: -86_400, nanos: 0 }.day_bounds(), (-86_400, -1));
    assert_eq!(Timestamp { secs: -86_401, nanos: 0 }.day_bounds(), (-172_800, -86_401));
}

#[test]
fn monotonic_readings() {
    assert_eq!(MonoInstant::from_secs(0).nanos, 0);
    assert_eq!(MonoInstant::from_secs(61).nanos, 61_000_000_000);
    assert_eq!(MonoInstant::from_secs(u64::MAX).nanos, u64::MAX as u128 * 1_000_000_000);
    let then = MonoInstant { nanos: 1_500_000_000 };
    assert_eq!(then.elapsed_secs(&MonoInstant { nanos: 3_499_999_999 }), 1);
    assert_eq!(then.elapsed_secs(&MonoInstant { nanos: 3_500_000_000 }), 2);
    assert_eq!(then.elapsed_secs(&MonoInstant { nanos: 1_000_000_000 }), 0);
    assert_eq!(then.elapsed_secs(&then), 0);
}
