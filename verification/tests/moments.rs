use chrono::{DateTime, Datelike, FixedOffset, NaiveDate, Timelike, Utc};
use rusty_planner::moment::{Clock, Moment, Weekday, MAX_TIMESTAMP, MIN_TIMESTAMP};

fn timestamp(year: i32, month: u32, day: u32, hour: u32, minute: u32, second: u32) -> i64 {
    NaiveDate::from_ymd_opt(year, month, day)
        .unwrap()
        .and_hms_opt(hour, minute, second)
        .unwrap()
        .and_utc()
        .timestamp()
}

fn utc(year: i32, month: u32, day: u32, hour: u32, minute: u32) -> Moment {
    Moment::new(timestamp(year, month, day, hour, minute, 0), 0, 0).unwrap()
}

fn weekday_number(day: Weekday) -> u32 {
    match day {
        Weekday::Mon => 0,
        Weekday::Tue => 1,
        Weekday::Wed => 2,
        Weekday::Thu => 3,
        Weekday::Fri => 4,
        Weekday::Sat => 5,
        Weekday::Sun => 6,
    }
}

#[test]
fn weekdays_go_round_in_sevens_from_a_thursday() {
    assert_eq!(Moment::new(0, 0, 0).unwrap().weekday(), Weekday::Thu);
    assert_eq!(Moment::new(86_399, 0, 0).unwrap().weekday(), Weekday::Thu);
    assert_eq!(Moment::new(86_400, 0, 0).unwrap().weekday(), Weekday::Fri);
    assert_eq!(Moment::new(-1, 0, 0).unwrap().weekday(), Weekday::Wed);
    assert_eq!(Moment::new(0, 0, -1).unwrap().weekday(), Weekday::Wed);
    let offsets = [0, 1, -1, 86_399, -86_399, 3600, -43_200];
    let mut timestamps = vec![MIN_TIMESTAMP, MIN_TIMESTAMP + 1, MAX_TIMESTAMP, MAX_TIMESTAMP - 1];
    let mut timestamp = MIN_TIMESTAMP;
    while timestamp < MAX_TIMESTAMP {
        timestamps.push(timestamp);
        timestamp += 86_400 * 365 * 1_000 + 86_400 * 3 + 7_777;
    }
    for timestamp in timestamps {
        for offset in offsets {
            let moment = Moment::new(timestamp, 0, offset).unwrap();
            let local = timestamp + offset as i64;
            assert_eq!(
                weekday_number(moment.weekday()) as i64,
                (local.div_euclid(86_400) + 3).rem_euclid(7)
            );
        }
    }
}

#[test]
fn timestamp_bounds_are_those_of_chrono() {
    assert_eq!(MIN_TIMESTAMP, DateTime::<Utc>::MIN_UTC.timestamp());
    assert_eq!(MAX_TIMESTAMP, DateTime::<Utc>::MAX_UTC.timestamp());
    assert!(DateTime::from_timestamp(MIN_TIMESTAMP, 0).is_some());
    assert!(DateTime::from_timestamp(MIN_TIMESTAMP - 1, 0).is_none());
    assert!(DateTime::from_timestamp(MAX_TIMESTAMP, 999_999_999).is_some());
    assert!(DateTime::from_timestamp(MAX_TIMESTAMP + 1, 0).is_none());
}

#[test]
fn new_accepts_exactly_the_values_in_range() {
    assert!(Moment::new(0, 0, 0).is_some());
    assert!(Moment::new(MIN_TIMESTAMP, 0, 0).is_some());
    assert!(Moment::new(MAX_TIMESTAMP, 999_999_999, 86_399).is_some());
    assert!(Moment::new(MIN_TIMESTAMP - 1, 0, 0).is_none());
    assert!(Moment::new(MAX_TIMESTAMP + 1, 0, 0).is_none());
    assert!(Moment::new(0, 1_000_000_000, 0).is_none());
    assert!(Moment::new(0, 0, 86_400).is_none());
    assert!(Moment::new(0, 0, -86_400).is_none());
    assert!(Moment::new(0, 0, -86_399).is_some());
}

#[test]
fn new_keeps_the_parts() {
    let moment = Moment::new(1_704_103_200, 5, 3600).unwrap();
    assert_eq!(moment.timestamp(), 1_704_103_200);
    assert_eq!(moment.nanos(), 5);
    assert_eq!(moment.offset(), 3600);
}

#[test]
fn calendar_fields_of_a_utc_moment() {
    let moment = utc(2024, 1, 5, 9, 7);
    assert_eq!(moment.minute(), 7);
    assert_eq!(moment.hour(), 9);
    assert_eq!(moment.day(), 5);
    assert_eq!(moment.month(), 1);
    assert_eq!(moment.weekday(), Weekday::Fri);
}

#[test]
fn calendar_fields_follow_the_offset() {
    // 2024-02-29T23:30:00 UTC read two hours east is 2024-03-01T01:30.
    let moment = Moment::new(timestamp(2024, 2, 29, 23, 30, 0), 0, 7200).unwrap();
    assert_eq!(moment.minute(), 30);
    assert_eq!(moment.hour(), 1);
    assert_eq!(moment.day(), 1);
    assert_eq!(moment.month(), 3);
    assert_eq!(moment.weekday(), Weekday::Fri);
    // Read five and a half hours west it is still the 29th, a Thursday.
    let west = Moment::new(timestamp(2024, 2, 29, 23, 30, 0), 0, -19_800).unwrap();
    assert_eq!(west.minute(), 0);
    assert_eq!(west.hour(), 18);
    assert_eq!(west.day(), 29);
    assert_eq!(west.month(), 2);
    assert_eq!(west.weekday(), Weekday::Thu);
}

#[test]
fn calendar_fields_before_the_epoch() {
    // 1969-12-31T23:59:00 UTC
    let moment = Moment::new(-60, 0, 0).unwrap();
    assert_eq!(moment.minute(), 59);
    assert_eq!(moment.hour(), 23);
    assert_eq!(moment.day(), 31);
    assert_eq!(moment.month(), 12);
    assert_eq!(moment.weekday(), Weekday::Wed);
}

#[test]
fn every_weekday_is_told_apart() {
    let expected = [
        Weekday::Mon,
        Weekday::Tue,
        Weekday::Wed,
        Weekday::Thu,
        Weekday::Fri,
        Weekday::Sat,
        Weekday::Sun,
    ];
    for (i, day) in expected.iter().enumerate() {
        // 2024-01-01 was a Monday.
        let moment = utc(2024, 1, 1 + i as u32, 12, 0);
        assert_eq!(moment.weekday(), *day);
    }
}

#[test]
fn calendar_fields_agree_with_chrono_across_many_moments() {
    let offsets = [0, 3600, -3600, 19_800, -34_200, 86_399, -86_399];
    let mut timestamp: i64 = -5_000_000_000;
    while timestamp < 5_000_000_000 {
        for offset in offsets {
            let moment = Moment::new(timestamp, 0, offset).unwrap();
            let zone = FixedOffset::east_opt(offset).unwrap();
            let there = DateTime::from_timestamp(timestamp, 0).unwrap().with_timezone(&zone);
            assert_eq!(moment.minute(), there.minute());
            assert_eq!(moment.hour(), there.hour());
            assert_eq!(moment.day(), there.day());
            assert_eq!(moment.month(), there.month());
            let local = timestamp + offset as i64;
            assert_eq!(moment.minute() as i64, local.rem_euclid(3600) / 60);
            assert_eq!(moment.hour() as i64, local.rem_euclid(86_400) / 3600);
            assert_eq!(weekday_number(moment.weekday()), there.weekday().num_days_from_monday());
            assert_eq!(
                weekday_number(moment.weekday()) as i64,
                (local.div_euclid(86_400) + 3).rem_euclid(7)
            );
        }
        timestamp += 86_400 * 37 + 3_571;
    }
}

#[test]
fn calendar_fields_at_the_ends_of_the_range() {
    let first = Moment::new(MIN_TIMESTAMP, 0, -86_399).unwrap();
    assert_eq!(first.minute(), 0);
    assert_eq!(first.hour(), 0);
    let last = Moment::new(MAX_TIMESTAMP, 999_999_999, 86_399).unwrap();
    assert_eq!(last.minute(), 59);
    assert_eq!(last.hour(), 23);
    let _ = (first.day(), first.month(), first.weekday());
    let _ = (last.day(), last.month(), last.weekday());
}

#[test]
fn order_goes_by_the_instant_alone() {
    let early = Moment::new(100, 5, 3600).unwrap();
    let same_instant = Moment::new(100, 5, -3600).unwrap();
    let later_nanos = Moment::new(100, 6, 0).unwrap();
    let later_second = Moment::new(101, 0, 0).unwrap();
    assert!(early.not_after(&same_instant));
    assert!(same_instant.not_after(&early));
    assert!(early.not_after(&later_nanos));
    assert!(!later_nanos.not_after(&early));
    assert!(later_nanos.not_after(&later_second));
    assert!(!later_second.not_after(&later_nanos));
}

#[test]
fn seconds_since_rounds_down() {
    let start = Moment::new(100, 500_000_000, 0).unwrap();
    assert_eq!(Moment::new(100, 500_000_000, 0).unwrap().seconds_since(&start), 0);
    assert_eq!(Moment::new(101, 499_999_999, 0).unwrap().seconds_since(&start), 0);
    assert_eq!(Moment::new(101, 500_000_000, 0).unwrap().seconds_since(&start), 1);
    assert_eq!(Moment::new(3700, 600_000_000, 7200).unwrap().seconds_since(&start), 3600);
    let first = Moment::new(MIN_TIMESTAMP, 0, 0).unwrap();
    let last = Moment::new(MAX_TIMESTAMP, 0, 0).unwrap();
    assert_eq!(last.seconds_since(&first), MAX_TIMESTAMP - MIN_TIMESTAMP);
}

#[test]
fn plus_seconds_moves_the_instant_and_keeps_the_rest() {
    let moment = Moment::new(1_000, 7, 3600).unwrap();
    let later = moment.plus_seconds(900).unwrap();
    assert_eq!(later.timestamp(), 1_900);
    assert_eq!(later.nanos(), 7);
    assert_eq!(later.offset(), 3600);
    let earlier = moment.plus_seconds(-1_200).unwrap();
    assert_eq!(earlier.timestamp(), -200);
    let same = moment.plus_seconds(0).unwrap();
    assert_eq!(same.timestamp(), 1_000);
}

#[test]
fn plus_stops_at_the_ends_of_the_range() {
    let last = Moment::new(MAX_TIMESTAMP, 0, 0).unwrap();
    assert!(last.plus_seconds(1).is_none());
    assert!(last.plus_seconds(0).is_some());
    assert!(last.plus_minutes_under(1, 0).is_none());
    assert!(last.plus_minutes_under(i64::MAX, 0).is_none());
    assert!(last.plus_minutes_under(i64::MIN, 0).is_none());
    assert!(last.plus_seconds(i64::MAX).is_none());
    assert!(last.plus_seconds(i64::MIN).is_none());
    let first = Moment::new(MIN_TIMESTAMP, 0, 0).unwrap();
    assert!(first.plus_seconds(-1).is_none());
    assert_eq!(first.plus_seconds(MAX_TIMESTAMP - MIN_TIMESTAMP).unwrap().timestamp(), MAX_TIMESTAMP);
    assert_eq!(last.plus_seconds(MIN_TIMESTAMP - MAX_TIMESTAMP).unwrap().timestamp(), MIN_TIMESTAMP);
}

#[test]
fn reached_within_compares_start_less_lead_with_now() {
    let start = utc(2024, 1, 1, 10, 0);
    assert!(!start.reached_within(15, &utc(2024, 1, 1, 9, 44)));
    assert!(start.reached_within(15, &utc(2024, 1, 1, 9, 45)));
    assert!(start.reached_within(0, &utc(2024, 1, 1, 10, 0)));
    assert!(!start.reached_within(-5, &utc(2024, 1, 1, 10, 4)));
    assert!(start.reached_within(-5, &utc(2024, 1, 1, 10, 5)));
    assert!(start.reached_within(i64::MAX, &utc(2024, 1, 1, 9, 0)));
    assert!(!start.reached_within(i64::MIN, &utc(2024, 1, 1, 11, 0)));
    let just_before = Moment::new(start.timestamp() - 900 - 1, 999_999_999, 0).unwrap();
    assert!(!start.reached_within(15, &just_before));
}

#[test]
fn plus_minutes_under_takes_the_offset_it_is_given() {
    let moment = Moment::new(1_000, 7, 3600).unwrap();
    let moved = moment.plus_minutes_under(15, 7200).unwrap();
    assert_eq!(moved.timestamp(), 1_900);
    assert_eq!(moved.nanos(), 7);
    assert_eq!(moved.offset(), 7200);
    assert_eq!(moment.plus_minutes_under(15, 3600), moment.plus_seconds(900));
    assert!(moment.plus_minutes_under(15, 86_400).is_none());
    assert!(moment.plus_minutes_under(15, -86_400).is_none());
    assert!(moment.plus_minutes_under(i64::MAX, 0).is_none());
    let last = Moment::new(MAX_TIMESTAMP, 0, 0).unwrap();
    assert!(last.plus_minutes_under(1, 0).is_none());
    assert!(last.plus_minutes_under(0, -3600).is_some());
}

#[test]
fn clock_gives_the_first_offset_for_a_lead() {
    let now = Moment::new(1_000, 7, 3600).unwrap();
    let mut clock = Clock::new(now);
    assert!(clock.moment_at_lead(0).is_none());
    clock.offsets.push((15, 7200));
    clock.offsets.push((0, 3600));
    clock.offsets.push((15, 0));
    clock.offsets.push((30, 86_400));
    clock.offsets.push((i64::MAX, 0));
    let ahead = clock.moment_at_lead(15).unwrap();
    assert_eq!(ahead.timestamp(), 1_900);
    assert_eq!(ahead.offset(), 7200);
    assert_eq!(ahead.nanos(), 7);
    assert_eq!(clock.moment_at_lead(0), Some(now));
    assert!(clock.moment_at_lead(30).is_none());
    assert!(clock.moment_at_lead(i64::MAX).is_none());
    assert!(clock.moment_at_lead(-15).is_none());
}
