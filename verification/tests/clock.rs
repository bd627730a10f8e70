use chrono::{DateTime, Local};
use smart_horizoker::clock::{
    is_due, Moment, EARLIEST_SECOND, LATEST_SECOND, LOG_INTERVAL, REFRESH_INTERVAL,
};

#[test]
fn time_stamps_name_instants() {
    assert_eq!(Moment::parse("1970-01-01T00:00:01Z"), Moment::new(1, 0));
    assert_eq!(Moment::parse("2024-05-06T07:08:09.5+03:00"), Moment::new(1714968489, 500_000_000));
    assert_eq!(Moment::parse("1969-12-31T23:59:59Z"), Moment::new(-1, 0));
    assert_eq!(Moment::parse("1970-01-01T00:00:00Z"), Some(Moment::epoch()));
}

#[test]
fn other_texts_are_no_time_stamps() {
    for s in ["", "now", "2024-05-06", "2024-05-06T07:08:09", "2024-13-06T07:08:09Z"] {
        assert_eq!(Moment::parse(s), None);
    }
}

#[test]
fn the_ends_of_what_can_be_named() {
    assert_eq!(Moment::parse("0000-01-01T00:00:00+23:59"), Moment::new(EARLIEST_SECOND, 0));
    assert_eq!(Moment::parse("9999-12-31T23:59:59-23:59"), Moment::new(LATEST_SECOND, 0));
    assert!(Moment::new(EARLIEST_SECOND, 0).is_some());
    assert!(Moment::new(LATEST_SECOND, 0).is_some());
    assert_eq!(Moment::new(EARLIEST_SECOND - 1, 0), None);
    assert_eq!(Moment::new(LATEST_SECOND + 1, 0), None);
    let last = Moment::parse("9999-12-31T23:59:60-23:59").unwrap();
    assert_eq!(last.settled().date_label(0), "+10000-01-01 23:59:00");
}

#[test]
fn fractions_beyond_a_second_need_a_leap_second() {
    assert!(Moment::new(59, 1_999_999_999).is_some());
    assert_eq!(Moment::new(59, 2_000_000_000), None);
    assert_eq!(Moment::new(58, 1_000_000_000), None);
    assert!(Moment::new(-1, 1_000_000_000).is_some());
    assert_eq!(Moment::new(0, 1_000_000_000), None);
}

#[test]
fn leap_seconds_settle_on_the_next_second() {
    let leap = Moment::parse("2016-12-31T23:59:60.25Z").unwrap();
    assert_eq!(Some(leap), Moment::new(1483228799, 1_250_000_000));
    assert_eq!(Some(leap.settled()), Moment::new(1483228800, 250_000_000));
    assert_eq!(leap.clock_label(0), "23:59:60");
    assert_eq!(leap.settled().clock_label(0), "00:00:00");
    let usual = Moment::new(5, 7).unwrap();
    assert_eq!(usual.settled(), usual);
}

#[test]
fn labels_follow_the_offset() {
    let m = Moment::parse("2024-05-06T07:08:09Z").unwrap();
    assert_eq!(m.clock_label(0), "07:08:09");
    assert_eq!(m.clock_label(3 * 3600), "10:08:09");
    assert_eq!(m.clock_label(-8 * 3600), "23:08:09");
    assert_eq!(m.clock_label(1), "07:08:10");
    assert_eq!(m.date_label(0), "2024-05-06 07:08:09");
    assert_eq!(m.date_label(-8 * 3600), "2024-05-05 23:08:09");
}

#[test]
fn labels_agree_with_the_local_clock() {
    for s in ["2024-05-06T07:08:09Z", "1931-01-01T12:00:00Z", "2016-12-31T23:59:60Z"] {
        let m = Moment::parse(s).unwrap();
        let local = DateTime::parse_from_rfc3339(s).unwrap().with_timezone(&Local);
        let offset = m.local_offset();
        assert_eq!(offset, local.offset().local_minus_utc());
        assert_eq!(m.clock_label(offset), local.format("%H:%M:%S").to_string());
        assert_eq!(m.date_label(offset), local.format("%Y-%m-%d %H:%M:%S").to_string());
    }
}

#[test]
fn settled_instants_agree_with_the_system_clock() {
    for s in ["2024-05-06T07:08:09.25Z", "1931-01-01T12:00:00.75Z", "2016-12-31T23:59:60.5Z"] {
        let dt = DateTime::parse_from_rfc3339(s).unwrap();
        let system = DateTime::<chrono::Utc>::from(std::time::SystemTime::from(dt));
        assert_eq!(
            Some(Moment::parse(s).unwrap().settled()),
            Moment::new(system.timestamp(), system.timestamp_subsec_nanos())
        );
    }
}

#[test]
fn intervals_end_on_time() {
    assert!(is_due(None, 0, REFRESH_INTERVAL));
    assert!(!is_due(Some(10), 10 + REFRESH_INTERVAL - 1, REFRESH_INTERVAL));
    assert!(is_due(Some(10), 10 + REFRESH_INTERVAL, REFRESH_INTERVAL));
    assert!(is_due(Some(10), 11 + REFRESH_INTERVAL, REFRESH_INTERVAL));
    assert!(!is_due(Some(u64::MAX), 0, LOG_INTERVAL));
}

#[test]
fn dates_follow_the_calendar() {
    let label = |secs: i64| Moment::new(secs, 0).unwrap().date_label(0);
    assert_eq!(label(0), "1970-01-01 00:00:00");
    assert_eq!(label(-1), "1969-12-31 23:59:59");
    assert_eq!(label(951_782_400), "2000-02-29 00:00:00");
    assert_eq!(label(951_868_800), "2000-03-01 00:00:00");
    assert_eq!(label(1_709_164_800), "2024-02-29 00:00:00");
    assert_eq!(label(-2_203_977_600), "1900-02-28 00:00:00");
    assert_eq!(label(-2_203_891_200), "1900-03-01 00:00:00");
    assert_eq!(label(-62_167_219_200), "0000-01-01 00:00:00");
    assert_eq!(label(-62_167_219_201), "-0001-12-31 23:59:59");
    assert_eq!(label(253_402_300_799), "9999-12-31 23:59:59");
    assert_eq!(label(253_402_300_800), "+10000-01-01 00:00:00");
}

#[test]
fn dates_run_through_without_gap_or_repetition() {
    let leap = |y: i64| y % 4 == 0 && (y % 100 != 0 || y % 400 == 0);
    let (mut year, mut month, mut day) = (0, 1, 1);
    let mut secs = -62_167_219_200;
    while year <= 9999 {
        let expected = format!("{:04}-{:02}-{:02} 00:00:00", year, month, day);
        assert_eq!(Moment::new(secs, 0).unwrap().date_label(0), expected);
        let length = match month {
            2 => 28 + i64::from(leap(year)),
            4 | 6 | 9 | 11 => 30,
            _ => 31,
        };
        day += 1;
        if day > length {
            day = 1;
            month += 1;
        }
        if month > 12 {
            month = 1;
            year += 1;
        }
        secs += 86_400;
    }
}
