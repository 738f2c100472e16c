use chrono::{DateTime, FixedOffset, TimeZone};
use twixter::entry::Entry;
use twixter::timestamp::{Timestamp, MAX_SECS, MIN_SECS, YEAR_0_SECS, YEAR_9999_SECS};

#[test]
fn a_timestamp_is_made_of_parts_that_describe_one() {
    assert_eq!(
        Timestamp::new(5, 6, 7),
        Some(Timestamp { secs: 5, nanos: 6, offset: 7 })
    );
    assert_eq!(Timestamp::new(MIN_SECS, 0, 0).map(|stamp| stamp.secs), Some(MIN_SECS));
    assert_eq!(Timestamp::new(MAX_SECS, 999_999_999, 86_399).map(|stamp| stamp.secs), Some(MAX_SECS));
    assert_eq!(Timestamp::new(MIN_SECS - 1, 0, 0), None);
    assert_eq!(Timestamp::new(MAX_SECS + 1, 0, 0), None);
    assert_eq!(Timestamp::new(0, 0, 86_400), None);
    assert_eq!(Timestamp::new(0, 0, -86_400), None);
    assert!(Timestamp::new(0, 0, -86_399).is_some());
    assert_eq!(Timestamp::new(0, 2_000_000_000, 0), None);
}

#[test]
fn a_leap_second_follows_second_59_only() {
    assert_eq!(Timestamp::new(0, 1_000_000_000, 0), None);
    assert_eq!(Timestamp::new(58, 1_000_000_000, 0), None);
    assert!(Timestamp::new(59, 1_000_000_000, 0).is_some());
    assert!(Timestamp::new(59, 1_999_999_999, 0).is_some());
    assert!(Timestamp::new(-1, 1_000_000_000, 0).is_some());
    assert_eq!(Timestamp::new(-2, 1_000_000_000, 0), None);
    assert!(Timestamp::new(-61, 1_500_000_000, 0).is_some());
}

#[test]
fn the_parts_are_those_that_chrono_holds() {
    for (secs, nanos) in [
        (0, 0),
        (59, 1_000_000_000),
        (-1, 1_999_999_999),
        (58, 1_000_000_000),
        (-2, 1_000_000_000),
        (MIN_SECS, 0),
        (MIN_SECS - 1, 0),
        (MAX_SECS, 1_999_999_999),
        (MAX_SECS + 1, 0),
        (5, 2_000_000_000),
    ] {
        assert_eq!(
            Timestamp::new(secs, nanos, 0).is_some(),
            DateTime::from_timestamp(secs, nanos).is_some()
        );
    }
    for offset in [-86_400, -86_399, 0, 86_399, 86_400] {
        assert_eq!(
            Timestamp::new(0, 0, offset).is_some(),
            FixedOffset::east_opt(offset).is_some()
        );
    }
}

#[test]
fn the_years_of_four_digits_have_their_bounds() {
    let zone = FixedOffset::east_opt(0).unwrap();
    assert_eq!(zone.with_ymd_and_hms(0, 1, 1, 0, 0, 0).unwrap().timestamp(), YEAR_0_SECS);
    assert_eq!(zone.with_ymd_and_hms(9999, 12, 31, 23, 59, 59).unwrap().timestamp(), YEAR_9999_SECS);
    assert_eq!(DateTime::<chrono::Utc>::MIN_UTC.timestamp(), MIN_SECS);
    assert_eq!(DateTime::<chrono::Utc>::MAX_UTC.timestamp(), MAX_SECS);
}

#[test]
fn instants_are_ordered_whatever_their_offset() {
    let early = Timestamp::new(10, 5, 3_600).unwrap();
    let late = Timestamp::new(10, 6, -3_600).unwrap();
    let later = Timestamp::new(11, 0, 0).unwrap();
    assert!(early.is_before(&late));
    assert!(late.is_before(&later));
    assert!(early.is_before(&later));
    assert!(!late.is_before(&early));
    assert!(!early.is_before(&early));
}

#[test]
fn the_local_time_must_be_in_range_to_be_written() {
    let last = Timestamp::new(MAX_SECS, 0, 0).unwrap();
    assert!(last.is_local_at(0));
    assert!(last.is_local_at(-5));
    assert!(!last.is_local_at(1));
    let first = Timestamp::new(MIN_SECS, 0, 0).unwrap();
    assert!(first.is_local_at(0));
    assert!(!first.is_local_at(-1));
    assert!(first.is_local_at(86_399));
}

#[test]
fn the_first_and_the_last_second_are_written() {
    let first = Entry::at(Timestamp::new(MIN_SECS, 0, 0).unwrap(), "a".to_string(), None);
    assert_eq!(first.to_twtxt(), "-262143-01-01T00:00:00Z\ta\n");
    let year_0 = Entry::at(Timestamp::new(YEAR_0_SECS, 0, 0).unwrap(), "b".to_string(), None);
    assert_eq!(year_0.to_twtxt(), "0000-01-01T00:00:00Z\tb\n");
    assert_eq!(Entry::parse("0000-01-01T00:00:00Z\tb", None), Ok(year_0));
    let year_9999 = Entry::at(Timestamp::new(YEAR_9999_SECS - 3_600, 0, 3_600).unwrap(), "c".to_string(), None);
    assert_eq!(year_9999.to_twtxt(), "9999-12-31T23:59:59+01:00\tc\n");
    assert_eq!(Entry::parse("9999-12-31T23:59:59+01:00\tc", None), Ok(year_9999));
}

#[test]
fn a_leap_second_is_counted_as_chrono_counts_it() {
    let leap = Timestamp::new(1483228799, 1_000_000_000, 0).unwrap();
    let entry = Entry::at(leap, "x".to_string(), None);
    assert_eq!(entry.to_twtxt(), "2016-12-31T23:59:60Z\tx\n");
    let minute_before = Entry::at(Timestamp::new(1483228740, 0, 0).unwrap(), "y".to_string(), None);
    assert_eq!(minute_before.render(&leap, false), "@ 1 minute ago\ny");
    let second_59 = Timestamp::new(1483228799, 0, 0).unwrap();
    assert_eq!(minute_before.render(&second_59, false), "@ just now\ny");
    let next_minute = Timestamp::new(1483228859, 0, 0).unwrap();
    assert_eq!(entry.render(&next_minute, false), "@ just now\nx");
    let hour_later = Timestamp::new(1483228799 + 3_600, 0, 0).unwrap();
    assert_eq!(entry.render(&hour_later, false), "@ 59 minutes ago\nx");
}

#[test]
fn an_offset_with_seconds_is_written_to_the_minute() {
    let entry = Entry::at(Timestamp::new(1454589001, 0, 3_630).unwrap(), "x".to_string(), None);
    assert_eq!(entry.to_twtxt(), "2016-02-04T13:30:31+01:01\tx\n");
}

#[test]
fn now_is_a_time_that_can_be_held() {
    let now = Timestamp::now();
    assert_eq!(Timestamp::new(now.secs, now.nanos, now.offset), Some(now));
    assert!(now.secs > 1_700_000_000);
}

fn expected_seconds(later: &Timestamp, earlier: &Timestamp) -> i64 {
    let later_of_day = later.secs.rem_euclid(86_400);
    let earlier_of_day = earlier.secs.rem_euclid(86_400);
    let shift: i128 = if later_of_day > earlier_of_day && earlier.nanos >= 1_000_000_000 {
        1
    } else if later_of_day < earlier_of_day && later.nanos >= 1_000_000_000 {
        -1
    } else {
        0
    };
    let nanos: i128 = (later.secs as i128 - earlier.secs as i128 + shift) * 1_000_000_000
        + (later.nanos as i128 - earlier.nanos as i128);
    (nanos / 1_000_000_000) as i64
}

#[test]
fn elapsed_seconds_are_whole_and_rounded_toward_zero() {
    let at = |secs: i64, nanos: u32| Timestamp::new(secs, nanos, 0).unwrap();
    assert_eq!(at(100, 0).seconds_since(&at(40, 0)), 60);
    assert_eq!(at(100, 200_000_000).seconds_since(&at(40, 500_000_000)), 59);
    assert_eq!(at(40, 500_000_000).seconds_since(&at(100, 200_000_000)), -59);
    assert_eq!(at(40, 0).seconds_since(&at(100, 0)), -60);
    assert_eq!(at(7, 999_999_999).seconds_since(&at(7, 0)), 0);
    assert_eq!(at(7, 0).seconds_since(&at(7, 999_999_999)), 0);
    assert_eq!(at(MAX_SECS, 0).seconds_since(&at(MIN_SECS, 0)), MAX_SECS - MIN_SECS);
    assert_eq!(at(MIN_SECS, 0).seconds_since(&at(MAX_SECS, 999_999_999)), MIN_SECS - MAX_SECS);
}

#[test]
fn elapsed_seconds_do_not_depend_on_the_offsets() {
    let later = Timestamp::new(1_000, 0, 3_600).unwrap();
    let earlier = Timestamp::new(400, 0, -7_200).unwrap();
    assert_eq!(later.seconds_since(&earlier), 600);
}

#[test]
fn elapsed_seconds_count_leap_seconds_by_the_time_of_day() {
    let seconds = [
        -86_401, -86_400, -86_399, -61, -60, -1, 0, 1, 58, 59, 60, 119, 86_339, 86_399, 86_400,
        86_459, 172_799, 1483228799, 1483228800, 1483228859,
    ];
    let fractions = [0, 1, 499_999_999, 999_999_999, 1_000_000_000, 1_500_000_000, 1_999_999_999];
    let mut stamps = vec![];
    for secs in seconds {
        for nanos in fractions {
            if let Some(stamp) = Timestamp::new(secs, nanos, 0) {
                stamps.push(stamp);
            }
        }
    }
    assert!(stamps.len() > 100);
    for later in &stamps {
        for earlier in &stamps {
            assert_eq!(later.seconds_since(earlier), expected_seconds(later, earlier));
        }
    }
}

#[test]
fn timestamps_written_in_full_read_back() {
    let mut seed: i64 = 2016;
    let span = YEAR_9999_SECS - YEAR_0_SECS + 1;
    for round in 0..2_000 {
        seed = (seed.wrapping_mul(6_364_136_223_846_793_005).wrapping_add(1_442_695_040_888_963_407))
            & i64::MAX;
        let offset = ((seed % 2_879) as i32 - 1_439) * 60;
        let local = match round {
            0 => YEAR_0_SECS,
            1 => YEAR_9999_SECS,
            _ => YEAR_0_SECS + (seed / 4_096) % span,
        };
        let entry = Entry::at(
            Timestamp::new(local - offset as i64, 0, offset).unwrap(),
            "x".to_string(),
            None,
        );
        let record = entry.to_twtxt();
        assert!(!record[..record.len() - 1].contains('\n'));
        assert_eq!(record.find('\t'), Some(record.len() - 3));
        assert_eq!(Entry::parse(&record[..record.len() - 1], None), Ok(entry));
    }
}

#[test]
fn what_is_read_lies_in_a_year_of_four_digits() {
    for line in [
        "0000-01-01T00:00:00+23:59\tx",
        "0000-01-01T00:00:00-23:59\tx",
        "9999-12-31T23:59:60+23:59\tx",
        "9999-12-31T23:59:59.999999999-23:59\tx",
        "2016-02-04t13:30:01z\tx",
        "2016-02-04 13:30:01+00:00\tx",
    ] {
        let stamp = Entry::parse(line, None).unwrap().timestamp;
        assert_eq!(Timestamp::new(stamp.secs, stamp.nanos, stamp.offset), Some(stamp));
        let local = stamp.secs + stamp.offset as i64;
        assert!(YEAR_0_SECS <= local && local <= YEAR_9999_SECS);
    }
    for line in ["10000-01-01T00:00:00Z\tx", "+2016-02-04T13:30:01Z\tx", "-001-01-01T00:00:00Z\tx", "2016-02-04T13:30:01+24:00\tx", "2016-02-04T13:30:01+0100\tx"] {
        assert_eq!(Entry::parse(line, None), Err(()));
    }
}
