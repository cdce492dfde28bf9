use chrono::{NaiveDate, NaiveTime, Timelike};
use rusty_planner::text::parse_i64;
use rusty_planner::utils::{
    date_from_str, duration_of_groups, duration_to_string, parse_duration, pick_first,
    time_from_str, CivilDate, CivilTime, MAX_DURATION_SECONDS,
};

fn date(year: i32, month: u32, day: u32) -> Option<CivilDate> {
    Some(CivilDate { year, month, day })
}

fn time(hour: u32, minute: u32, second: u32) -> Option<CivilTime> {
    Some(CivilTime { hour, minute, second, nanosecond: 0 })
}

#[test]
fn dates_in_four_notations() {
    assert_eq!(date_from_str("2024-03-07"), date(2024, 3, 7));
    assert_eq!(date_from_str("07-03-2024"), date(2024, 3, 7));
    assert_eq!(date_from_str("07.03.2024"), date(2024, 3, 7));
    assert_eq!(date_from_str("03/07/2024"), date(2024, 3, 7));
    assert_eq!(date_from_str("2024-02-29"), date(2024, 2, 29));
}

#[test]
fn texts_that_write_no_date() {
    assert_eq!(date_from_str(""), None);
    assert_eq!(date_from_str("tomorrow"), None);
    assert_eq!(date_from_str("2023-02-29"), None);
    assert_eq!(date_from_str("2024-13-01"), None);
    assert_eq!(date_from_str("2024/03/07"), None);
    assert_eq!(date_from_str("2024-03-07 extra"), None);
}

#[test]
fn date_agrees_with_chrono() {
    for text in ["2024-03-07", "31-12-1999", "01.01.0001", "12/31/2099", "5-6-2024", "x"] {
        let expected = ["%Y-%m-%d", "%d-%m-%Y", "%d.%m.%Y", "%m/%d/%Y"]
            .iter()
            .find_map(|format| NaiveDate::parse_from_str(text, format).ok());
        let got = date_from_str(text)
            .map(|d| NaiveDate::from_ymd_opt(d.year, d.month, d.day).unwrap());
        assert_eq!(got, expected);
    }
}

#[test]
fn times_in_three_notations() {
    assert_eq!(time_from_str("09:05:30"), time(9, 5, 30));
    assert_eq!(time_from_str("09:05"), time(9, 5, 0));
    assert_eq!(time_from_str("7:15"), time(7, 15, 0));
    assert_eq!(time_from_str("0:00"), time(0, 0, 0));
    assert_eq!(time_from_str("9:05 PM"), time(21, 5, 0));
    assert_eq!(time_from_str("12:00 AM"), time(0, 0, 0));
    assert_eq!(time_from_str("23:59:59"), time(23, 59, 59));
}

#[test]
fn texts_that_write_no_time() {
    assert_eq!(time_from_str(""), None);
    assert_eq!(time_from_str("24:00"), None);
    assert_eq!(time_from_str("12"), None);
    assert_eq!(time_from_str("17:60"), None);
    assert_eq!(time_from_str("noon"), None);
}

#[test]
fn leap_second_runs_past_the_second() {
    let expected = NaiveTime::parse_from_str("08:59:60", "%H:%M:%S").unwrap();
    assert_eq!(
        time_from_str("08:59:60"),
        Some(CivilTime { hour: 8, minute: 59, second: 59, nanosecond: expected.nanosecond() })
    );
    assert_eq!(expected.nanosecond(), 1_000_000_000);
}

#[test]
fn first_attempt_that_came_to_something_wins() {
    assert_eq!(pick_first(Some(1), Some(2), Some(3), Some(4)), Some(1));
    assert_eq!(pick_first(None, Some(2), Some(3), Some(4)), Some(2));
    assert_eq!(pick_first(None, None, Some(3), Some(4)), Some(3));
    assert_eq!(pick_first(None, None, None, Some(4)), Some(4));
    assert_eq!(pick_first::<i32>(None, None, None, None), None);
}

#[test]
fn durations_in_hours_and_minutes() {
    assert_eq!(duration_to_string(0), "0h0m");
    assert_eq!(duration_to_string(59), "0h0m");
    assert_eq!(duration_to_string(60), "0h1m");
    assert_eq!(duration_to_string(3599), "0h59m");
    assert_eq!(duration_to_string(3600), "1h0m");
    assert_eq!(duration_to_string(9000), "2h30m");
    assert_eq!(duration_to_string(90_061), "25h1m");
}

#[test]
fn negative_durations_round_toward_zero() {
    assert_eq!(duration_to_string(-59), "0h0m");
    assert_eq!(duration_to_string(-60), "0h-1m");
    assert_eq!(duration_to_string(-3700), "-1h-1m");
    assert_eq!(duration_to_string(-9000), "-2h-30m");
    for seconds in [i64::MIN, i64::MIN + 1, -86_401, -1, 1, 86_401, i64::MAX] {
        let expected = format!("{}h{}m", seconds / 3600, (seconds % 3600) / 60);
        assert_eq!(duration_to_string(seconds), expected);
    }
}

#[test]
fn durations_are_read_in_seconds() {
    assert_eq!(parse_duration("2h30m"), Ok(9000));
    assert_eq!(parse_duration("2h"), Ok(7200));
    assert_eq!(parse_duration("30m"), Ok(1800));
    assert_eq!(parse_duration("  1h5m  "), Ok(3900));
    assert_eq!(parse_duration("0h0m"), Ok(0));
    assert_eq!(parse_duration("90m"), Ok(5400));
}

#[test]
fn what_does_not_start_like_a_duration_counts_as_nothing() {
    assert_eq!(parse_duration(""), Ok(0));
    assert_eq!(parse_duration("soon"), Ok(0));
    assert_eq!(parse_duration("x2h"), Ok(0));
    assert_eq!(parse_duration("30"), Ok(0));
    assert_eq!(parse_duration("2h30"), Ok(7200));
    assert_eq!(parse_duration("2h 30m"), Ok(7200));
    assert_eq!(parse_duration("30m2h"), Ok(1800));
}

#[test]
fn numbers_that_do_not_fit_count_as_nothing() {
    assert_eq!(parse_duration("99999999999999999999h5m"), Ok(300));
    assert_eq!(parse_duration("1h99999999999999999999m"), Ok(3600));
    // Digits of other scripts match the expression and write no integer.
    assert_eq!(parse_duration("٣h5m"), Ok(300));
}

#[test]
fn durations_that_are_too_long_are_an_error() {
    let limit_hours = MAX_DURATION_SECONDS / 3600;
    assert_eq!(parse_duration(&format!("{}h", limit_hours)), Ok(limit_hours * 3600));
    assert_eq!(
        parse_duration(&format!("{}h", limit_hours + 1)),
        Err("Duration out of range".to_string())
    );
    assert_eq!(
        parse_duration("9223372036854775807h9223372036854775807m"),
        Err("Duration out of range".to_string())
    );
}

#[test]
fn groups_of_a_match_tell_the_duration() {
    let groups = |hours: Option<&str>, minutes: Option<&str>| {
        vec![Some(String::new()), hours.map(String::from), minutes.map(String::from)]
    };
    assert_eq!(duration_of_groups(&groups(Some("2"), Some("30"))), Ok(9000));
    assert_eq!(duration_of_groups(&groups(None, Some("30"))), Ok(1800));
    assert_eq!(duration_of_groups(&groups(Some("2"), None)), Ok(7200));
    assert_eq!(duration_of_groups(&groups(None, None)), Ok(0));
    assert_eq!(duration_of_groups(&groups(Some("x"), Some("-3"))), Ok(-180));
    assert_eq!(duration_of_groups(&vec![]), Ok(0));
    assert_eq!(duration_of_groups(&vec![None, Some("4".to_string())]), Ok(14_400));
    assert_eq!(
        duration_of_groups(&groups(Some("2562047788016"), None)),
        Err("Duration out of range".to_string())
    );
    assert_eq!(
        duration_of_groups(&groups(Some("2562047788015"), None)),
        Ok(2_562_047_788_015 * 3600)
    );
    assert_eq!(
        duration_of_groups(&groups(Some("2562047788015"), Some("12"))),
        Ok(MAX_DURATION_SECONDS - 55)
    );
    assert_eq!(
        duration_of_groups(&groups(Some("2562047788015"), Some("13"))),
        Err("Duration out of range".to_string())
    );
    assert_eq!(
        duration_of_groups(&groups(Some("-2562047788016"), None)),
        Err("Duration out of range".to_string())
    );
}

#[test]
fn integers_are_read_as_std_reads_them() {
    let samples = [
        "0", "7", "42", "-42", "+42", "007", "-0", "+0", "", "-", "+", "--1", "+-1", "1 ", " 1",
        "1_000", "12a", "a12", "٣", "9223372036854775807", "9223372036854775808",
        "-9223372036854775808", "-9223372036854775809", "99999999999999999999999999",
        "-99999999999999999999999999", "00000000000000000000000000000017", "1.5", "1e3",
    ];
    for text in samples {
        assert_eq!(parse_i64(text), text.parse::<i64>().ok());
    }
    assert_eq!(parse_i64("-9223372036854775808"), Some(i64::MIN));
    assert_eq!(parse_i64("9223372036854775807"), Some(i64::MAX));
    assert_eq!(parse_i64("9223372036854775808"), None);
}
