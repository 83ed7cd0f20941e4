use timewarden::encoding::{
    day_char, decode_apps, decode_days, decode_schedule, enabled_only, encode_apps, encode_days,
    encode_schedule, parse_time, schedule_from_fields, split_commas, ScheduleFields,
};
use timewarden::models::Schedule;
use timewarden::time::{TimeOfDay, Weekday};

fn strings(items: &[&str]) -> Vec<String> {
    items.iter().map(|s| s.to_string()).collect()
}

fn fields(start: &str, end: &str, days: &str, apps: &str) -> ScheduleFields {
    ScheduleFields {
        name: "Focus".to_string(),
        start_time: start.to_string(),
        end_time: end.to_string(),
        days: days.to_string(),
        expected_apps: apps.to_string(),
        check_interval_secs: 120,
        grace_period_secs: 30,
        enabled: true,
    }
}

#[test]
fn weekdays_round_trip() {
    let days = vec![Weekday::Mon, Weekday::Wed, Weekday::Fri];
    let text = encode_days(&days);
    assert_eq!(text, "0,2,4");
    assert_eq!(decode_days(&text), days);
}

#[test]
fn every_weekday_has_its_digit() {
    let week = vec![
        Weekday::Mon,
        Weekday::Tue,
        Weekday::Wed,
        Weekday::Thu,
        Weekday::Fri,
        Weekday::Sat,
        Weekday::Sun,
    ];
    assert_eq!(encode_days(&week), "0,1,2,3,4,5,6");
    assert_eq!(decode_days("0,1,2,3,4,5,6"), week);
    assert_eq!(day_char(Weekday::Sun), '6');
    assert_eq!(day_char(Weekday::Mon), '0');
}

#[test]
fn weekday_order_and_repeats_are_kept() {
    let days = vec![Weekday::Sun, Weekday::Mon, Weekday::Sun];
    let text = encode_days(&days);
    assert_eq!(text, "6,0,6");
    assert_eq!(decode_days(&text), days);
}

#[test]
fn no_weekdays_round_trip() {
    let none: Vec<Weekday> = Vec::new();
    assert_eq!(encode_days(&none), "");
    assert_eq!(decode_days(""), none);
}

#[test]
fn unreadable_weekday_parts_are_passed_over() {
    assert_eq!(decode_days("0,7,x,,4"), vec![Weekday::Mon, Weekday::Fri]);
    assert_eq!(decode_days("+3"), vec![Weekday::Thu]);
    assert_eq!(decode_days("003,06"), vec![Weekday::Thu, Weekday::Sun]);
    assert_eq!(decode_days(" 1,2 ,-3"), Vec::<Weekday>::new());
    assert_eq!(decode_days("4294967296,99999999999999999999,5"), vec![Weekday::Sat]);
    assert_eq!(decode_days("+,1"), vec![Weekday::Tue]);
}

#[test]
fn text_is_cut_at_commas() {
    assert_eq!(split_commas(""), strings(&[""]));
    assert_eq!(split_commas("a"), strings(&["a"]));
    assert_eq!(split_commas("a,b"), strings(&["a", "b"]));
    assert_eq!(split_commas(",a,,b,"), strings(&["", "a", "", "b", ""]));
    assert_eq!(split_commas("é,ü"), strings(&["é", "ü"]));
}

#[test]
fn apps_round_trip() {
    let apps = strings(&["Google Chrome", "Code", "Terminal"]);
    let text = encode_apps(&apps);
    assert_eq!(text, "Google Chrome,Code,Terminal");
    assert_eq!(decode_apps(&text), apps);
    assert_eq!(encode_apps(&Vec::new()), "");
    assert_eq!(decode_apps(""), Vec::<String>::new());
}

#[test]
fn empty_app_parts_are_passed_over() {
    assert_eq!(decode_apps("a,,b,"), strings(&["a", "b"]));
    assert_eq!(decode_apps(",,"), Vec::<String>::new());
}

#[test]
fn times_are_read_as_hour_and_minute() {
    assert_eq!(parse_time("09:00"), Some(TimeOfDay { secs: 32_400, frac: 0 }));
    assert_eq!(parse_time("22:30"), Some(TimeOfDay { secs: 81_000, frac: 0 }));
    assert_eq!(parse_time("23:59"), Some(TimeOfDay { secs: 86_340, frac: 0 }));
    assert_eq!(parse_time("24:00"), None);
    assert_eq!(parse_time("12:60"), None);
    assert_eq!(parse_time("noon"), None);
    assert_eq!(parse_time(""), None);
}

#[test]
fn schedule_is_written_in_its_persisted_form() {
    let mut s = Schedule::default();
    s.name = "Deep work".to_string();
    s.expected_apps = strings(&["Code", "Terminal"]);
    let f = encode_schedule(&s);
    assert_eq!(f.name, "Deep work");
    assert_eq!(f.start_time, "09:00");
    assert_eq!(f.end_time, "17:00");
    assert_eq!(f.days, "0,1,2,3,4");
    assert_eq!(f.expected_apps, "Code,Terminal");
    assert_eq!(f.check_interval_secs, 300);
    assert_eq!(f.grace_period_secs, 60);
    assert!(f.enabled);
}

#[test]
fn times_are_written_without_seconds() {
    let mut s = Schedule::default();
    s.start_time = TimeOfDay { secs: 7 * 3600 + 5 * 60 + 59, frac: 999_999_999 };
    s.end_time = TimeOfDay { secs: 86_399, frac: 1_500_000_000 };
    let f = encode_schedule(&s);
    assert_eq!(f.start_time, "07:05");
    assert_eq!(f.end_time, "23:59");
    s.start_time = TimeOfDay { secs: 0, frac: 0 };
    assert_eq!(encode_schedule(&s).start_time, "00:00");
}

#[test]
fn schedule_is_read_from_its_persisted_form() {
    let s = decode_schedule(42, &fields("22:00", "06:15", "5,6", "Steam,Discord"));
    assert_eq!(s.id, Some(42));
    assert_eq!(s.name, "Focus");
    assert_eq!(s.start_time, TimeOfDay { secs: 79_200, frac: 0 });
    assert_eq!(s.end_time, TimeOfDay { secs: 22_500, frac: 0 });
    assert_eq!(s.days, vec![Weekday::Sat, Weekday::Sun]);
    assert_eq!(s.expected_apps, strings(&["Steam", "Discord"]));
    assert_eq!(s.check_interval_secs, 120);
    assert_eq!(s.grace_period_secs, 30);
    assert!(s.enabled);
}

#[test]
fn unreadable_times_fall_back_to_working_hours() {
    let s = decode_schedule(1, &fields("late", "25:00", "0", ""));
    assert_eq!(s.start_time, TimeOfDay { secs: 32_400, frac: 0 });
    assert_eq!(s.end_time, TimeOfDay { secs: 61_200, frac: 0 });
    assert!(s.expected_apps.is_empty());
    let t = schedule_from_fields(1, &fields("", "", "", ""), None, Some(TimeOfDay { secs: 60, frac: 0 }));
    assert_eq!(t.start_time, TimeOfDay { secs: 32_400, frac: 0 });
    assert_eq!(t.end_time, TimeOfDay { secs: 60, frac: 0 });
    assert!(t.days.is_empty());
}

#[test]
fn whole_schedule_round_trip() {
    let mut s = Schedule::default();
    s.name = "Evening".to_string();
    s.start_time = TimeOfDay::from_hms_opt(22, 0, 0).unwrap();
    s.end_time = TimeOfDay::from_hms_opt(6, 0, 0).unwrap();
    s.days = vec![Weekday::Mon, Weekday::Wed, Weekday::Fri];
    s.expected_apps = strings(&["Kindle"]);
    s.check_interval_secs = 10;
    s.grace_period_secs = 20;
    s.enabled = false;
    let back = decode_schedule(5, &encode_schedule(&s));
    assert_eq!(back.id, Some(5));
    assert_eq!(back.name, s.name);
    assert_eq!(back.start_time, s.start_time);
    assert_eq!(back.end_time, s.end_time);
    assert_eq!(back.days, s.days);
    assert_eq!(back.expected_apps, s.expected_apps);
    assert_eq!(back.check_interval_secs, 10);
    assert_eq!(back.grace_period_secs, 20);
    assert!(!back.enabled);
}

#[test]
fn written_times_read_back_to_the_minute() {
    for secs in [0u32, 59, 60, 3_599, 3_600, 32_400, 45_296, 86_340, 86_399] {
        let mut s = Schedule::default();
        s.start_time = TimeOfDay { secs, frac: 123_456_789 };
        s.end_time = TimeOfDay { secs, frac: 0 };
        let f = encode_schedule(&s);
        let minute = TimeOfDay { secs: secs - secs % 60, frac: 0 };
        assert_eq!(parse_time(&f.start_time), Some(minute));
        let back = decode_schedule(1, &f);
        assert_eq!(back.start_time, minute);
        assert_eq!(back.end_time, minute);
    }
}

#[test]
fn only_enabled_schedules_are_kept_in_order() {
    let mut all: Vec<Schedule> = Vec::new();
    for (i, on) in [true, false, true, true, false].iter().enumerate() {
        let mut s = Schedule::default();
        s.id = Some(i as i64);
        s.enabled = *on;
        all.push(s);
    }
    let kept = enabled_only(all);
    let ids: Vec<Option<i64>> = kept.iter().map(|s| s.id).collect();
    assert_eq!(ids, vec![Some(0), Some(2), Some(3)]);
    assert!(enabled_only(Vec::new()).is_empty());
}
