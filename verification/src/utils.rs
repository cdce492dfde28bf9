//! Dates, times of day and durations as the user writes them.

use crate::text::{
    chars_of, parse_i64, push_signed_decimal, push_text, signed_decimal, string_of, trim_chars,
    trimmed, integer_read,
};
use chrono::{Datelike, NaiveDate, NaiveTime, Timelike};
use regex::Regex;
use vstd::prelude::*;

verus! {

/// A day of the calendar.
#[derive(Clone, Copy, Debug, PartialEq, Eq, Structural)]
pub struct CivilDate {
    pub year: i32,
    pub month: u32,
    pub day: u32,
}

/// A time of day. `nanosecond` runs past a thousand million within a leap second.
#[derive(Clone, Copy, Debug, PartialEq, Eq, Structural)]
pub struct CivilTime {
    pub hour: u32,
    pub minute: u32,
    pub second: u32,
    pub nanosecond: u32,
}

/// The date that chrono's `NaiveDate::parse_from_str` reads off `text` under the
/// format `format`, or `None` where it reads none.
pub uninterp spec fn date_parsed(text: Seq<char>, format: Seq<char>) -> Option<CivilDate>;

/// The time of day that chrono's `NaiveTime::parse_from_str` reads off `text`
/// under the format `format`, or `None` where it reads none.
pub uninterp spec fn time_parsed(text: Seq<char>, format: Seq<char>) -> Option<CivilTime>;

/// Calls chrono's `NaiveDate::parse_from_str` and hands back year, month and day
/// of the date that it read, or `None` for its error. The contract names the
/// result `date_parsed`.
#[verifier::external_body]
fn chrono_parse_date(text: &str, format: &str) -> (r: Option<CivilDate>)
    ensures
        r == date_parsed(text@, format@),
{
    match NaiveDate::parse_from_str(text, format) {
        Ok(date) => Some(CivilDate { year: date.year(), month: date.month(), day: date.day() }),
        Err(_) => None,
    }
}

/// Calls chrono's `NaiveTime::parse_from_str` and hands back hour, minute, second
/// and nanosecond of the time that it read, or `None` for its error. The contract
/// names the result `time_parsed`.
#[verifier::external_body]
fn chrono_parse_time(text: &str, format: &str) -> (r: Option<CivilTime>)
    ensures
        r == time_parsed(text@, format@),
{
    match NaiveTime::parse_from_str(text, format) {
        Ok(time) => Some(
            CivilTime {
                hour: time.hour(),
                minute: time.minute(),
                second: time.second(),
                nanosecond: time.nanosecond(),
            },
        ),
        Err(_) => None,
    }
}

/// The first of four attempts that came to something.
pub open spec fn first_of_four<T>(a: Option<T>, b: Option<T>, c: Option<T>, d: Option<T>) -> Option<
    T,
> {
    if a is Some {
        a
    } else if b is Some {
        b
    } else if c is Some {
        c
    } else {
        d
    }
}

/// The first of four attempts that came to something, if any did.
pub fn pick_first<T>(a: Option<T>, b: Option<T>, c: Option<T>, d: Option<T>) -> (r: Option<T>)
    ensures
        r == first_of_four(a, b, c, d),
{
    if a.is_some() {
        a
    } else if b.is_some() {
        b
    } else if c.is_some() {
        c
    } else {
        d
    }
}

/// The date that `text` writes in one of the notations year-month-day,
/// day-month-year, day.month.year and month/day/year, tried in that order.
pub open spec fn date_written(text: Seq<char>) -> Option<CivilDate> {
    first_of_four(
        date_parsed(text, "%Y-%m-%d"@),
        date_parsed(text, "%d-%m-%Y"@),
        date_parsed(text, "%d.%m.%Y"@),
        date_parsed(text, "%m/%d/%Y"@),
    )
}

/// Reads a date in one of the four notations.
pub fn date_from_str(date_str: &str) -> (r: Option<CivilDate>)
    ensures
        r == date_written(date_str@),
{
    pick_first(
        chrono_parse_date(date_str, "%Y-%m-%d"),
        chrono_parse_date(date_str, "%d-%m-%Y"),
        chrono_parse_date(date_str, "%d.%m.%Y"),
        chrono_parse_date(date_str, "%m/%d/%Y"),
    )
}

/// The time of day that `text` writes in one of the notations
/// hour:minute:second, hour:minute and hour:minute with AM or PM, tried in that
/// order.
pub open spec fn time_written(text: Seq<char>) -> Option<CivilTime> {
    first_of_four(
        time_parsed(text, "%H:%M:%S"@),
        time_parsed(text, "%H:%M"@),
        time_parsed(text, "%I:%M %p"@),
        None,
    )
}

/// Reads a time of day in one of the three notations.
pub fn time_from_str(time_str: &str) -> (r: Option<CivilTime>)
    ensures
        r == time_written(time_str@),
{
    pick_first(
        chrono_parse_time(time_str, "%H:%M:%S"),
        chrono_parse_time(time_str, "%H:%M"),
        chrono_parse_time(time_str, "%I:%M %p"),
        None,
    )
}

/// The quotient of `a` by `b` rounded toward zero, for a positive `b`.
pub open spec fn toward_zero(a: int, b: int) -> int {
    if a >= 0 {
        a / b
    } else {
        -((-a) / b)
    }
}

/// A duration of `seconds` in hours and minutes, as in `2h30m`. Both numbers
/// are rounded toward zero, so a negative duration shows two negative numbers,
/// and the seconds past the minute are not shown.
pub open spec fn duration_text(seconds: int) -> Seq<char> {
    let hours = toward_zero(seconds, 3600);
    let minutes = toward_zero(seconds - hours * 3600, 60);
    signed_decimal(hours) + "h"@ + signed_decimal(minutes) + "m"@
}

/// Writes a duration of `seconds` in hours and minutes.
pub fn duration_to_string(seconds: i64) -> (r: String)
    ensures
        r@ == duration_text(seconds as int),
{
    let magnitude: u64 = if seconds < 0 {
        (-(seconds + 1)) as u64 + 1
    } else {
        seconds as u64
    };
    let hours_magnitude: i64 = (magnitude / 3600) as i64;
    let minutes_magnitude: i64 = ((magnitude % 3600) / 60) as i64;
    let hours: i64 = if seconds < 0 {
        -hours_magnitude
    } else {
        hours_magnitude
    };
    let minutes: i64 = if seconds < 0 {
        -minutes_magnitude
    } else {
        minutes_magnitude
    };
    proof {
        let m = magnitude as int;
        assert(m == (m / 3600) * 3600 + m % 3600) by (nonlinear_arith)
            requires
                m >= 0,
        ;
        if seconds < 0 {
            assert(-(seconds - hours * 3600) == m % 3600);
        }
    }
    let mut out: Vec<char> = Vec::new();
    push_signed_decimal(&mut out, hours);
    push_text(&mut out, "h");
    push_signed_decimal(&mut out, minutes);
    push_text(&mut out, "m");
    assert(out@ =~= duration_text(seconds as int));
    string_of(&out)
}

/// The regular expression after which a duration is written: a number of hours
/// before an `h`, then a number of minutes before an `m`, either of which may
/// be missing.
pub open spec fn duration_pattern() -> Seq<char> {
    "(?:(\\d+)h)?(?:(\\d+)m)?"@
}

/// What the regular expression `pattern` finds in `text`, to the regex crate.
/// The outer `None` stands for an expression that `Regex::new` refuses, the
/// inner one for a text in which `Regex::captures` finds no match. Otherwise
/// the sequence holds, for the match that lies furthest left, what each group
/// of the expression matched, or `None` for a group that took no part; the
/// group at zero is the match as a whole.
pub uninterp spec fn captured(pattern: Seq<char>, text: Seq<char>) -> Option<
    Option<Seq<Option<Seq<char>>>>,
>;

/// The texts that the groups hold.
pub open spec fn group_texts(groups: Seq<Option<String>>) -> Seq<Option<Seq<char>>> {
    groups.map_values(
        |group: Option<String>|
            match group {
                Some(text) => Some(text@),
                None => None,
            },
    )
}

/// Compiles `pattern` with the regex crate's `Regex::new`, runs `Regex::captures`
/// on `text` and copies out what each group matched. The contract names the
/// result `captured` and claims no more.
#[verifier::external_body]
fn regex_captures(pattern: &str, text: &str) -> (r: Option<Option<Vec<Option<String>>>>)
    ensures
        r is Some <==> captured(pattern@, text@) is Some,
        r matches Some(found) ==> (found is Some <==> captured(pattern@, text@).unwrap() is Some),
        r matches Some(Some(groups)) ==> group_texts(groups@) == captured(
            pattern@,
            text@,
        ).unwrap().unwrap(),
{
    let Ok(expression) = Regex::new(pattern) else {
        return None;
    };
    let Some(found) = expression.captures(text) else {
        return Some(None);
    };
    let mut groups = Vec::new();
    for group in found.iter() {
        match group {
            Some(matched) => groups.push(Some(matched.as_str().to_string())),
            None => groups.push(None),
        }
    }
    Some(Some(groups))
}

/// The longest duration, in seconds, that can be told: chrono's `TimeDelta`
/// spans as many milliseconds as 64 bits count, to either side.
pub const MAX_DURATION_SECONDS: i64 = 9_223_372_036_854_775;

/// The number that group `i` of `groups` writes: zero where the group is
/// missing or took no part in the match, and where what it matched writes no
/// integer of 64 bits.
pub open spec fn group_number(groups: Seq<Option<Seq<char>>>, i: int) -> int {
    if 0 <= i < groups.len() && groups[i] is Some {
        match integer_read(groups[i].unwrap()) {
            Some(n) => if i64::MIN <= n <= i64::MAX {
                n
            } else {
                0
            },
            None => 0,
        }
    } else {
        0
    }
}

/// The seconds in the hours of group one and the minutes of group two.
pub open spec fn groups_seconds(groups: Seq<Option<Seq<char>>>) -> int {
    group_number(groups, 1) * 3600 + group_number(groups, 2) * 60
}

fn number_of_group(groups: &Vec<Option<String>>, i: usize) -> (r: i64)
    ensures
        r == group_number(group_texts(groups@), i as int),
{
    if i < groups.len() {
        match &groups[i] {
            Some(text) => match parse_i64(text.as_str()) {
                Some(n) => n,
                None => 0,
            },
            None => 0,
        }
    } else {
        0
    }
}

/// The duration that the groups of a match tell, in seconds, or an error where
/// it is longer than can be told.
pub fn duration_of_groups(groups: &Vec<Option<String>>) -> (r: Result<i64, String>)
    ensures
        match r {
            Ok(seconds) => seconds == groups_seconds(group_texts(groups@)) && -MAX_DURATION_SECONDS
                <= seconds <= MAX_DURATION_SECONDS,
            Err(message) => message@ == "Duration out of range"@ && !(-MAX_DURATION_SECONDS
                <= groups_seconds(group_texts(groups@)) <= MAX_DURATION_SECONDS),
        },
{
    let hours = number_of_group(groups, 1);
    let minutes = number_of_group(groups, 2);
    let seconds: i128 = (hours as i128) * 3600 + (minutes as i128) * 60;
    if -(MAX_DURATION_SECONDS as i128) <= seconds && seconds <= MAX_DURATION_SECONDS as i128 {
        Ok(seconds as i64)
    } else {
        Err("Duration out of range".to_owned())
    }
}

/// What a text that tells a duration is read as: the seconds it tells, or the
/// reason why it tells none.
pub open spec fn duration_read(text: Seq<char>) -> Result<int, Seq<char>> {
    match captured(duration_pattern(), trimmed(text)) {
        None => Err("Failed to compile regex"@),
        Some(None) => Err("Invalid format"@),
        Some(Some(groups)) => if -MAX_DURATION_SECONDS <= groups_seconds(groups)
            <= MAX_DURATION_SECONDS {
            Ok(groups_seconds(groups))
        } else {
            Err("Duration out of range"@)
        },
    }
}

/// Reads a duration written as hours and minutes, as in `2h30m`, `2h` or `30m`,
/// and answers it in seconds. White space around it is passed over.
pub fn parse_duration(s: &str) -> (r: Result<i64, String>)
    ensures
        match r {
            Ok(seconds) => duration_read(s@) == Ok::<int, Seq<char>>(seconds as int),
            Err(message) => duration_read(s@) == Err::<int, Seq<char>>(message@),
        },
{
    let text = string_of(&trim_chars(&chars_of(s)));
    match regex_captures("(?:(\\d+)h)?(?:(\\d+)m)?", text.as_str()) {
        None => Err("Failed to compile regex".to_owned()),
        Some(None) => Err("Invalid format".to_owned()),
        Some(Some(groups)) => duration_of_groups(&groups),
    }
}

} // verus!
