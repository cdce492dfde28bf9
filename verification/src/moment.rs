//! Points in time as the planner sees them: an instant on the UTC time line together
//! with the zone offset that turns it into a wall-clock reading.

use chrono::{DateTime, Datelike, FixedOffset, Timelike};
use vstd::prelude::*;

verus! {

/// The earliest UNIX timestamp a [`Moment`] can carry: midnight of 1 January of the
/// year -262143, the first instant that chrono's `DateTime` represents.
pub const MIN_TIMESTAMP: i64 = -8_334_601_228_800;

/// The latest UNIX timestamp a [`Moment`] can carry: the last second of 31 December
/// of the year 262142, the last second that chrono's `DateTime` represents.
pub const MAX_TIMESTAMP: i64 = 8_210_266_876_799;

/// Nanoseconds in one second.
pub const NANOS_PER_SECOND: u32 = 1_000_000_000;

/// Zone offsets lie strictly between minus and plus one day, in seconds.
pub const OFFSET_LIMIT: i32 = 86_400;

/// Whether `timestamp` lies in the span of seconds that a [`Moment`] can carry.
pub open spec fn timestamp_in_range(timestamp: int) -> bool {
    MIN_TIMESTAMP <= timestamp <= MAX_TIMESTAMP
}

/// Whether `offset` is a zone offset of less than a day to either side.
pub open spec fn offset_in_range(offset: int) -> bool {
    -OFFSET_LIMIT < offset < OFFSET_LIMIT
}

/// A day of the week.
#[derive(Clone, Copy, Debug, PartialEq, Eq, Structural)]
pub enum Weekday {
    Mon,
    Tue,
    Wed,
    Thu,
    Fri,
    Sat,
    Sun,
}

/// The minute of the hour, 0 to 59, that a wall clock shows `local_seconds` after
/// the start of 1970.
pub open spec fn minute_of(local_seconds: int) -> int {
    (local_seconds % 3600) / 60
}

/// The hour of the day, 0 to 23, that a wall clock shows `local_seconds` after the
/// start of 1970.
pub open spec fn hour_of(local_seconds: int) -> int {
    (local_seconds % 86_400) / 3600
}

/// The day of the month on which the instant `local_seconds` after the start of 1970
/// falls in the proleptic Gregorian calendar, as chrono's `Datelike::day` gives it.
pub uninterp spec fn day_of(local_seconds: int) -> int;

/// The month of the year, counted from 1, in which that instant falls, as chrono's
/// `Datelike::month` gives it.
pub uninterp spec fn month_of(local_seconds: int) -> int;

/// The day of the week on which the instant `local_seconds` after the start of 1970
/// falls: the days go round in sevens, and 1 January 1970 was a Thursday.
pub open spec fn weekday_of(local_seconds: int) -> Weekday {
    let day = (local_seconds / 86_400 + 3) % 7;
    if day == 0 {
        Weekday::Mon
    } else if day == 1 {
        Weekday::Tue
    } else if day == 2 {
        Weekday::Wed
    } else if day == 3 {
        Weekday::Thu
    } else if day == 4 {
        Weekday::Fri
    } else if day == 5 {
        Weekday::Sat
    } else {
        Weekday::Sun
    }
}

/// Calls chrono's `Timelike::minute` on the `DateTime<FixedOffset>` that has the
/// given UNIX timestamp and offset. chrono splits the timestamp into days and
/// seconds of the day by Euclidean division, adds the offset to the seconds of the
/// day modulo one day, and reads the minute off the sum; the contract says the same
/// of the sum of timestamp and offset.
#[verifier::external_body]
fn chrono_minute(timestamp: i64, offset: i32) -> (r: u32)
    requires
        timestamp_in_range(timestamp as int),
        offset_in_range(offset as int),
    ensures
        r == minute_of(timestamp + offset),
{
    let zone = FixedOffset::east_opt(offset).unwrap();
    DateTime::from_timestamp(timestamp, 0).unwrap().with_timezone(&zone).minute()
}

/// Calls chrono's `Timelike::hour` on the `DateTime<FixedOffset>` that has the given
/// UNIX timestamp and offset; what is said of `chrono_minute` holds here of the hour.
#[verifier::external_body]
fn chrono_hour(timestamp: i64, offset: i32) -> (r: u32)
    requires
        timestamp_in_range(timestamp as int),
        offset_in_range(offset as int),
    ensures
        r == hour_of(timestamp + offset),
{
    let zone = FixedOffset::east_opt(offset).unwrap();
    DateTime::from_timestamp(timestamp, 0).unwrap().with_timezone(&zone).hour()
}

/// Calls chrono's `Datelike::day` on the `DateTime<FixedOffset>` that has the given
/// UNIX timestamp and offset. The result is a function of the local reading alone;
/// the contract gives it the name `day_of` and claims no more.
#[verifier::external_body]
fn chrono_day(timestamp: i64, offset: i32) -> (r: u32)
    requires
        timestamp_in_range(timestamp as int),
        offset_in_range(offset as int),
    ensures
        r == day_of(timestamp + offset),
{
    let zone = FixedOffset::east_opt(offset).unwrap();
    DateTime::from_timestamp(timestamp, 0).unwrap().with_timezone(&zone).day()
}

/// Calls chrono's `Datelike::month` on the `DateTime<FixedOffset>` that has the given
/// UNIX timestamp and offset, and names the result `month_of`.
#[verifier::external_body]
fn chrono_month(timestamp: i64, offset: i32) -> (r: u32)
    requires
        timestamp_in_range(timestamp as int),
        offset_in_range(offset as int),
    ensures
        r == month_of(timestamp + offset),
{
    let zone = FixedOffset::east_opt(offset).unwrap();
    DateTime::from_timestamp(timestamp, 0).unwrap().with_timezone(&zone).month()
}

/// Calls chrono's `Datelike::weekday` on the `DateTime<FixedOffset>` that has the
/// given UNIX timestamp and offset, and turns chrono's weekday into this crate's.
/// chrono reads the weekday off the date of the local reading, in the proleptic
/// Gregorian calendar, in which the weekdays go round without a break; the
/// contract states it by the count of whole days since 1 January 1970, a Thursday.
#[verifier::external_body]
fn chrono_weekday(timestamp: i64, offset: i32) -> (r: Weekday)
    requires
        timestamp_in_range(timestamp as int),
        offset_in_range(offset as int),
    ensures
        r == weekday_of(timestamp + offset),
{
    let zone = FixedOffset::east_opt(offset).unwrap();
    match DateTime::from_timestamp(timestamp, 0).unwrap().with_timezone(&zone).weekday() {
        chrono::Weekday::Mon => Weekday::Mon,
        chrono::Weekday::Tue => Weekday::Tue,
        chrono::Weekday::Wed => Weekday::Wed,
        chrono::Weekday::Thu => Weekday::Thu,
        chrono::Weekday::Fri => Weekday::Fri,
        chrono::Weekday::Sat => Weekday::Sat,
        chrono::Weekday::Sun => Weekday::Sun,
    }
}

/// The text that chrono's `DateTime::format` writes for the instant `timestamp`
/// seconds and `nanos` nanoseconds after the epoch, read `offset` seconds east
/// of UTC, under the format `format`.
pub uninterp spec fn formatted(timestamp: int, nanos: int, offset: int, format: Seq<char>) -> Seq<
    char,
>;

/// The format in which a moment is written for a search by date: year, month,
/// the two characters `&d`, hour and minute.
pub open spec fn search_format() -> Seq<char> {
    "%Y-%m-&d %H:%M"@
}

/// Calls chrono's `DateTime::format` on the `DateTime<FixedOffset>` that has the
/// given UNIX timestamp, nanoseconds and offset, and writes the result into a
/// string. The contract names the text `formatted`. chrono fails on a format it
/// does not know; the one format admitted here is made of specifiers it knows.
#[verifier::external_body]
fn chrono_format(timestamp: i64, nanos: u32, offset: i32, format: &str) -> (r: String)
    requires
        timestamp_in_range(timestamp as int),
        nanos < NANOS_PER_SECOND,
        offset_in_range(offset as int),
        format@ == search_format(),
    ensures
        r@ == formatted(timestamp as int, nanos as int, offset as int, format@),
{
    let zone = FixedOffset::east_opt(offset).unwrap();
    DateTime::from_timestamp(timestamp, nanos).unwrap().with_timezone(&zone).format(
        format,
    ).to_string()
}

/// An instant with the zone offset under which it is read.
///
/// The instant is `timestamp` whole seconds after 1970-01-01T00:00:00 UTC plus
/// `nanos` nanoseconds. The wall clock at that instant shows the UTC reading moved
/// east by `offset` seconds. Two moments are ordered by their instants alone, and
/// are equal where they agree in instant and offset.
#[derive(Clone, Copy, Debug, PartialEq, Eq, Structural)]
pub struct Moment {
    timestamp: i64,
    nanos: u32,
    offset: i32,
}

impl Moment {
    /// The timestamp is one that chrono represents, the nanoseconds stay below a
    /// second, and the offset stays below a day. Every moment that the program
    /// holds is well formed.
    #[verifier::type_invariant]
    pub closed spec fn well_formed(self) -> bool {
        &&& timestamp_in_range(self.timestamp as int)
        &&& self.nanos < NANOS_PER_SECOND
        &&& offset_in_range(self.offset as int)
    }

    /// Whole seconds since the epoch.
    pub closed spec fn spec_timestamp(&self) -> i64 {
        self.timestamp
    }

    /// Nanoseconds past the whole second.
    pub closed spec fn spec_nanos(&self) -> u32 {
        self.nanos
    }

    /// Seconds that the wall clock is ahead of UTC.
    pub closed spec fn spec_offset(&self) -> i32 {
        self.offset
    }

    /// What `well_formed` says, over the three parts.
    pub broadcast proof fn well_formed_parts(self)
        ensures
            #[trigger] self.well_formed() <==> {
                &&& timestamp_in_range(self.spec_timestamp() as int)
                &&& self.spec_nanos() < NANOS_PER_SECOND
                &&& offset_in_range(self.spec_offset() as int)
            },
    {
    }

    /// Nanoseconds between the epoch and this moment's instant.
    pub open spec fn instant(self) -> int {
        self.spec_timestamp() * (NANOS_PER_SECOND as int) + self.spec_nanos()
    }

    /// Seconds between the epoch and this moment's reading taken as a naive
    /// date and time: what the wall clock shows, counted as if it were UTC.
    pub open spec fn local_seconds(self) -> int {
        self.spec_timestamp() + self.spec_offset()
    }

    /// Whole seconds that have passed from `since` to this moment, rounded down.
    pub open spec fn elapsed_seconds(self, since: Moment) -> int {
        (self.instant() - since.instant()) / (NANOS_PER_SECOND as int)
    }

    /// This moment moved by `seconds` along the time line and read under the same
    /// offset. It has a meaning where the new timestamp is in range.
    pub closed spec fn moved_by(self, seconds: int) -> Moment {
        Moment {
            timestamp: (self.timestamp + seconds) as i64,
            nanos: self.nanos,
            offset: self.offset,
        }
    }

    /// The parts of a moved moment.
    pub broadcast proof fn moved_by_parts(self, seconds: int)
        requires
            timestamp_in_range(self.spec_timestamp() + seconds),
        ensures
            (#[trigger] self.moved_by(seconds)).spec_timestamp() == self.spec_timestamp()
                + seconds,
            self.moved_by(seconds).spec_nanos() == self.spec_nanos(),
            self.moved_by(seconds).spec_offset() == self.spec_offset(),
            self.moved_by(seconds).instant() == self.instant() + seconds * (
            NANOS_PER_SECOND as int),
            self.moved_by(seconds).local_seconds() == self.local_seconds() + seconds,
            self.well_formed() ==> self.moved_by(seconds).well_formed(),
    {
        assert((self.spec_timestamp() + seconds) * (NANOS_PER_SECOND as int)
            == self.spec_timestamp() * (NANOS_PER_SECOND as int) + seconds * (
        NANOS_PER_SECOND as int)) by (nonlinear_arith);
    }

    /// This moment moved by `seconds` along the time line and read under `offset`.
    /// It has a meaning where the new timestamp and the offset are in range.
    pub closed spec fn moved_under(self, seconds: int, offset: int) -> Moment {
        Moment {
            timestamp: (self.timestamp + seconds) as i64,
            nanos: self.nanos,
            offset: offset as i32,
        }
    }

    /// The parts of a moment that was moved and read under another offset.
    pub broadcast proof fn moved_under_parts(self, seconds: int, offset: int)
        requires
            timestamp_in_range(self.spec_timestamp() + seconds),
            offset_in_range(offset),
        ensures
            (#[trigger] self.moved_under(seconds, offset)).spec_timestamp()
                == self.spec_timestamp() + seconds,
            self.moved_under(seconds, offset).spec_nanos() == self.spec_nanos(),
            self.moved_under(seconds, offset).spec_offset() == offset,
            self.moved_under(seconds, offset).instant() == self.instant() + seconds * (
            NANOS_PER_SECOND as int),
            self.moved_under(seconds, offset).local_seconds() == self.spec_timestamp() + seconds
                + offset,
            self.well_formed() ==> self.moved_under(seconds, offset).well_formed(),
            offset == self.spec_offset() ==> self.moved_under(seconds, offset) == self.moved_by(
                seconds,
            ),
    {
        assert((self.spec_timestamp() + seconds) * (NANOS_PER_SECOND as int)
            == self.spec_timestamp() * (NANOS_PER_SECOND as int) + seconds * (
        NANOS_PER_SECOND as int)) by (nonlinear_arith);
    }

    /// Whether the instant that lies `lead_minutes` before this moment is `now` or
    /// earlier: whether `now` has come within the lead time of this moment.
    pub open spec fn lead_reached(self, lead_minutes: int, now: Moment) -> bool {
        self.instant() - lead_minutes * 60 * (NANOS_PER_SECOND as int) <= now.instant()
    }

    /// A moment from its three parts, if they are in range.
    pub fn new(timestamp: i64, nanos: u32, offset: i32) -> (r: Option<Moment>)
        ensures
            r is Some <==> timestamp_in_range(timestamp as int) && nanos < NANOS_PER_SECOND
                && offset_in_range(offset as int),
            r matches Some(m) ==> m.well_formed() && m.spec_timestamp() == timestamp
                && m.spec_nanos() == nanos && m.spec_offset() == offset,
    {
        if MIN_TIMESTAMP <= timestamp && timestamp <= MAX_TIMESTAMP && nanos < NANOS_PER_SECOND
            && -OFFSET_LIMIT < offset && offset < OFFSET_LIMIT {
            Some(Moment { timestamp, nanos, offset })
        } else {
            None
        }
    }

    /// Whole seconds since the epoch.
    #[verifier::when_used_as_spec(spec_timestamp)]
    pub fn timestamp(&self) -> (r: i64)
        ensures
            r == self.spec_timestamp(),
            timestamp_in_range(r as int),
    {
        proof {
            use_type_invariant(self);
        }
        self.timestamp
    }

    /// Nanoseconds past the whole second.
    #[verifier::when_used_as_spec(spec_nanos)]
    pub fn nanos(&self) -> (r: u32)
        ensures
            r == self.spec_nanos(),
            r < NANOS_PER_SECOND,
    {
        proof {
            use_type_invariant(self);
        }
        self.nanos
    }

    /// Seconds that the wall clock is ahead of UTC.
    #[verifier::when_used_as_spec(spec_offset)]
    pub fn offset(&self) -> (r: i32)
        ensures
            r == self.spec_offset(),
            offset_in_range(r as int),
    {
        proof {
            use_type_invariant(self);
        }
        self.offset
    }

    /// Whether this moment's instant is `other`'s or an earlier one.
    pub fn not_after(&self, other: &Moment) -> (r: bool)
        ensures
            r == (self.instant() <= other.instant()),
    {
        proof {
            use_type_invariant(self);
            use_type_invariant(other);
        }
        self.timestamp < other.timestamp || (self.timestamp == other.timestamp && self.nanos
            <= other.nanos)
    }

    /// Whole seconds from `since` to this moment, which must not lie before it.
    pub fn seconds_since(&self, since: &Moment) -> (r: i64)
        requires
            since.instant() <= self.instant(),
        ensures
            r == self.elapsed_seconds(*since),
            0 <= r <= MAX_TIMESTAMP - MIN_TIMESTAMP,
    {
        proof {
            use_type_invariant(self);
            use_type_invariant(since);
        }
        let whole: i64 = self.timestamp - since.timestamp;
        let r: i64 = if self.nanos >= since.nanos {
            whole
        } else {
            whole - 1
        };
        proof {
            let d = NANOS_PER_SECOND as int;
            let x = self.instant() - since.instant();
            let rem: int = if self.nanos >= since.nanos {
                self.nanos - since.nanos
            } else {
                self.nanos - since.nanos + d
            };
            assert(x == r * d + rem) by (nonlinear_arith)
                requires
                    x == self.timestamp * d + self.nanos - (since.timestamp * d + since.nanos),
                    r == self.timestamp - since.timestamp - (if self.nanos >= since.nanos {
                        0int
                    } else {
                        1int
                    }),
                    rem == self.nanos - since.nanos + (if self.nanos >= since.nanos {
                        0int
                    } else {
                        d
                    }),
            ;
            vstd::arithmetic::div_mod::lemma_fundamental_div_mod_converse(x, d, r as int, rem);
        }
        r
    }

    /// Whether `now` has come within `lead_minutes` of this moment.
    pub fn reached_within(&self, lead_minutes: i64, now: &Moment) -> (r: bool)
        ensures
            r == self.lead_reached(lead_minutes as int, *now),
    {
        proof {
            use_type_invariant(self);
            use_type_invariant(now);
        }
        let scale: i128 = 1_000_000_000;
        let lead: i128 = (lead_minutes as i128) * 60;
        let from: i128 = (self.timestamp as i128 - lead) * scale + (self.nanos as i128);
        let to: i128 = (now.timestamp as i128) * scale + (now.nanos as i128);
        proof {
            assert((self.timestamp - lead_minutes * 60) * 1_000_000_000 == self.timestamp
                * 1_000_000_000 - lead_minutes * 60 * 1_000_000_000) by (nonlinear_arith);
        }
        from <= to
    }

    /// This moment moved by `seconds` along the time line, read under the same
    /// offset. `None` where the result would leave the span of timestamps.
    pub fn plus_seconds(&self, seconds: i64) -> (r: Option<Moment>)
        ensures
            r is Some <==> timestamp_in_range(self.spec_timestamp() + seconds),
            r matches Some(m) ==> m == self.moved_by(seconds as int),
    {
        proof {
            use_type_invariant(self);
        }
        if seconds < MIN_TIMESTAMP - MAX_TIMESTAMP || seconds > MAX_TIMESTAMP - MIN_TIMESTAMP {
            return None;
        }
        let timestamp: i64 = self.timestamp + seconds;
        if MIN_TIMESTAMP <= timestamp && timestamp <= MAX_TIMESTAMP {
            Some(Moment { timestamp, nanos: self.nanos, offset: self.offset })
        } else {
            None
        }
    }

    /// This moment moved by `minutes` and read under `offset`. `None` where the
    /// result would leave the span of timestamps or `offset` is no zone offset.
    pub fn plus_minutes_under(&self, minutes: i64, offset: i32) -> (r: Option<Moment>)
        ensures
            r is Some <==> timestamp_in_range(self.spec_timestamp() + 60 * minutes)
                && offset_in_range(offset as int),
            r matches Some(m) ==> m == self.moved_under(60 * minutes, offset as int),
    {
        proof {
            use_type_invariant(self);
        }
        if minutes < -MAX_TIMESTAMP || minutes > MAX_TIMESTAMP {
            return None;
        }
        let timestamp: i64 = self.timestamp + minutes * 60;
        if MIN_TIMESTAMP <= timestamp && timestamp <= MAX_TIMESTAMP && -OFFSET_LIMIT < offset
            && offset < OFFSET_LIMIT {
            Some(Moment { timestamp, nanos: self.nanos, offset })
        } else {
            None
        }
    }

    /// The minute that the wall clock shows at this moment.
    pub open spec fn spec_minute(&self) -> u32 {
        minute_of(self.local_seconds()) as u32
    }

    /// The hour that the wall clock shows at this moment.
    pub open spec fn spec_hour(&self) -> u32 {
        hour_of(self.local_seconds()) as u32
    }

    /// The day of the month that the calendar shows at this moment.
    pub open spec fn spec_day(&self) -> u32 {
        day_of(self.local_seconds()) as u32
    }

    /// The month that the calendar shows at this moment.
    pub open spec fn spec_month(&self) -> u32 {
        month_of(self.local_seconds()) as u32
    }

    /// The day of the week that the calendar shows at this moment.
    pub open spec fn spec_weekday(&self) -> Weekday {
        weekday_of(self.local_seconds())
    }

    /// The moment as it is written for a search by date.
    pub open spec fn search_text(&self) -> Seq<char> {
        formatted(
            self.spec_timestamp() as int,
            self.spec_nanos() as int,
            self.spec_offset() as int,
            search_format(),
        )
    }

    /// Writes the moment for a search by date.
    pub fn to_search_text(&self) -> (r: String)
        ensures
            r@ == self.search_text(),
    {
        proof {
            use_type_invariant(self);
        }
        chrono_format(self.timestamp, self.nanos, self.offset, "%Y-%m-&d %H:%M")
    }

    /// The minute that the wall clock shows at this moment.
    #[verifier::when_used_as_spec(spec_minute)]
    pub fn minute(&self) -> (r: u32)
        ensures
            r == self.spec_minute(),
            r == minute_of(self.local_seconds()),
            r < 60,
    {
        proof {
            use_type_invariant(self);
        }
        chrono_minute(self.timestamp, self.offset)
    }

    /// The hour that the wall clock shows at this moment.
    #[verifier::when_used_as_spec(spec_hour)]
    pub fn hour(&self) -> (r: u32)
        ensures
            r == self.spec_hour(),
            r == hour_of(self.local_seconds()),
            r < 24,
    {
        proof {
            use_type_invariant(self);
        }
        chrono_hour(self.timestamp, self.offset)
    }

    /// The day of the month that the calendar shows at this moment.
    #[verifier::when_used_as_spec(spec_day)]
    pub fn day(&self) -> (r: u32)
        ensures
            r == self.spec_day(),
            r == day_of(self.local_seconds()),
    {
        proof {
            use_type_invariant(self);
        }
        chrono_day(self.timestamp, self.offset)
    }

    /// The month that the calendar shows at this moment.
    #[verifier::when_used_as_spec(spec_month)]
    pub fn month(&self) -> (r: u32)
        ensures
            r == self.spec_month(),
            r == month_of(self.local_seconds()),
    {
        proof {
            use_type_invariant(self);
        }
        chrono_month(self.timestamp, self.offset)
    }

    /// The day of the week that the calendar shows at this moment.
    #[verifier::when_used_as_spec(spec_weekday)]
    pub fn weekday(&self) -> (r: Weekday)
        ensures
            r == self.spec_weekday(),
    {
        proof {
            use_type_invariant(self);
        }
        chrono_weekday(self.timestamp, self.offset)
    }
}

/// The clock as the host reads it at one pass: the moment of the pass, and for
/// each lead time that is asked for the zone offset that holds when the lead time
/// has passed. The host knows its time zone; the planner does not.
#[derive(Clone, Debug)]
pub struct Clock {
    /// The moment of the pass.
    pub now: Moment,
    /// Lead times in minutes, each with the offset in seconds that holds that many
    /// minutes after `now`. Of two entries for one lead time the first counts.
    pub offsets: Vec<(i64, i32)>,
}

impl Clock {
    /// The offset that the first `k` entries give for the lead time `lead`.
    pub open spec fn offset_among(self, lead: int, k: nat) -> Option<i32>
        decreases k,
    {
        if k == 0 {
            None
        } else {
            match self.offset_among(lead, (k - 1) as nat) {
                Some(offset) => Some(offset),
                None => if self.offsets@[k - 1].0 == lead {
                    Some(self.offsets@[k - 1].1)
                } else {
                    None
                },
            }
        }
    }

    /// The offset that the clock gives for the lead time `lead`.
    pub open spec fn offset_for(self, lead: int) -> Option<i32> {
        self.offset_among(lead, self.offsets@.len())
    }

    /// Whether the clock can be read `lead` minutes ahead: the moment is one that
    /// can be represented, and the clock gives a zone offset for it.
    pub open spec fn reads(self, lead: int) -> bool {
        &&& timestamp_in_range(self.now.spec_timestamp() + 60 * lead)
        &&& self.offset_for(lead) matches Some(offset) && offset_in_range(offset as int)
    }

    /// The moment `lead` minutes after `now`, under the offset that holds then.
    pub open spec fn at_lead(self, lead: int) -> Moment {
        self.now.moved_under(60 * lead, self.offset_for(lead).unwrap() as int)
    }

    /// A clock that gives no offsets yet.
    pub fn new(now: Moment) -> (r: Clock)
        ensures
            r.now == now,
            r.offsets@.len() == 0,
    {
        Clock { now, offsets: Vec::new() }
    }

    /// The moment `lead` minutes after `now`, where the clock can be read there.
    pub fn moment_at_lead(&self, lead: i64) -> (r: Option<Moment>)
        ensures
            r is Some <==> self.reads(lead as int),
            r matches Some(m) ==> m == self.at_lead(lead as int),
    {
        let mut i: usize = 0;
        while i < self.offsets.len()
            invariant
                i <= self.offsets@.len(),
                self.offset_among(lead as int, i as nat) is None,
            decreases self.offsets@.len() - i,
        {
            if self.offsets[i].0 == lead {
                proof {
                    self.lemma_first_entry_counts(lead as int, (i + 1) as nat);
                }
                return self.now.plus_minutes_under(lead, self.offsets[i].1);
            }
            i += 1;
        }
        None
    }

    /// An offset that the first `k` entries give is the one that all entries give.
    proof fn lemma_first_entry_counts(self, lead: int, k: nat)
        requires
            k <= self.offsets@.len(),
            self.offset_among(lead, k) is Some,
        ensures
            self.offset_for(lead) == self.offset_among(lead, k),
        decreases self.offsets@.len() - k,
    {
        if k < self.offsets@.len() {
            self.lemma_first_entry_counts(lead, k + 1);
        }
    }
}

} // verus!
