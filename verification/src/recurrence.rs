//! Recurrence rules and the predicate that decides whether a rule is active at a
//! given moment.

use crate::moment::{Moment, Weekday};
use crate::text::{lowercase, same_text, to_lowercase};
use vstd::prelude::*;

verus! {

/// How often a recurring event comes round.
#[derive(Clone, Copy, Debug, PartialEq, Eq, Structural)]
pub enum RecurrenceFrequency {
    Hourly,
    Daily,
    Weekly,
    Monthly,
    Yearly,
}

impl RecurrenceFrequency {
    /// The frequency that a name in lower case stands for; a name that stands for
    /// none is taken as `Daily`.
    pub open spec fn of_lowercase(name: Seq<char>) -> RecurrenceFrequency {
        if name == "hourly"@ {
            RecurrenceFrequency::Hourly
        } else if name == "daily"@ {
            RecurrenceFrequency::Daily
        } else if name == "weekly"@ {
            RecurrenceFrequency::Weekly
        } else if name == "monthly"@ {
            RecurrenceFrequency::Monthly
        } else if name == "yearly"@ {
            RecurrenceFrequency::Yearly
        } else {
            RecurrenceFrequency::Daily
        }
    }

    /// The frequency that `name`, which is in lower case, stands for.
    pub fn from_lowercase(name: &str) -> (r: RecurrenceFrequency)
        ensures
            r == Self::of_lowercase(name@),
    {
        if same_text(name, "hourly") {
            RecurrenceFrequency::Hourly
        } else if same_text(name, "daily") {
            RecurrenceFrequency::Daily
        } else if same_text(name, "weekly") {
            RecurrenceFrequency::Weekly
        } else if same_text(name, "monthly") {
            RecurrenceFrequency::Monthly
        } else if same_text(name, "yearly") {
            RecurrenceFrequency::Yearly
        } else {
            RecurrenceFrequency::Daily
        }
    }

    /// The frequency that `string` stands for, in whatever case it is written.
    pub fn from_str(string: &str) -> (r: RecurrenceFrequency)
        ensures
            r == Self::of_lowercase(lowercase(string@)),
    {
        let lower = to_lowercase(string);
        Self::from_lowercase(lower.as_str())
    }
}

/// The day of the week that a name in lower case stands for, in full or cut to
/// three letters.
pub open spec fn weekday_of_lowercase(name: Seq<char>) -> Option<Weekday> {
    if name == "mon"@ || name == "monday"@ {
        Some(Weekday::Mon)
    } else if name == "tue"@ || name == "tuesday"@ {
        Some(Weekday::Tue)
    } else if name == "wed"@ || name == "wednesday"@ {
        Some(Weekday::Wed)
    } else if name == "thu"@ || name == "thursday"@ {
        Some(Weekday::Thu)
    } else if name == "fri"@ || name == "friday"@ {
        Some(Weekday::Fri)
    } else if name == "sat"@ || name == "saturday"@ {
        Some(Weekday::Sat)
    } else if name == "sun"@ || name == "sunday"@ {
        Some(Weekday::Sun)
    } else {
        None
    }
}

/// The day of the week that `name`, which is in lower case, stands for.
pub fn weekday_from_lowercase(name: &str) -> (r: Option<Weekday>)
    ensures
        r == weekday_of_lowercase(name@),
{
    if same_text(name, "mon") || same_text(name, "monday") {
        Some(Weekday::Mon)
    } else if same_text(name, "tue") || same_text(name, "tuesday") {
        Some(Weekday::Tue)
    } else if same_text(name, "wed") || same_text(name, "wednesday") {
        Some(Weekday::Wed)
    } else if same_text(name, "thu") || same_text(name, "thursday") {
        Some(Weekday::Thu)
    } else if same_text(name, "fri") || same_text(name, "friday") {
        Some(Weekday::Fri)
    } else if same_text(name, "sat") || same_text(name, "saturday") {
        Some(Weekday::Sat)
    } else if same_text(name, "sun") || same_text(name, "sunday") {
        Some(Weekday::Sun)
    } else {
        None
    }
}

/// The day of the week that `value` stands for, in whatever case it is written.
pub fn parse_weekday(value: &str) -> (r: Option<Weekday>)
    ensures
        r == weekday_of_lowercase(lowercase(value@)),
{
    let lower = to_lowercase(value);
    weekday_from_lowercase(lower.as_str())
}

/// As [`parse_weekday`], with Monday for a name that stands for no day.
pub fn parse_weekday_default(value: &str) -> (r: Weekday)
    ensures
        r == match weekday_of_lowercase(lowercase(value@)) {
            Some(weekday) => weekday,
            None => Weekday::Mon,
        },
{
    match parse_weekday(value) {
        Some(weekday) => weekday,
        None => Weekday::Mon,
    }
}

/// A rule "every `interval` units of `frequency`, from `start_date` on", pinned to
/// the wall clock by optional anchors.
///
/// Each frequency owns one anchor: Hourly the minute, Daily the hour, Weekly the day
/// of the week, Monthly the day of the month, Yearly the month. A rule without the
/// anchor that its frequency owns is never due. Every other anchor that is absent
/// holds at every moment. The `year` anchor is carried along and never consulted.
#[derive(Clone, Copy, Debug)]
pub struct Recurrence {
    pub frequency: RecurrenceFrequency,
    pub interval: i64,
    pub start_date: Moment,
    pub end_date: Option<Moment>,
    pub minute: Option<u32>,
    pub hour: Option<u32>,
    pub day: Option<u32>,
    pub week_day: Option<Weekday>,
    pub month: Option<u32>,
    pub year: Option<u32>,
}

impl Recurrence {
    /// A rule repeats every `interval` units, and `interval` is at least one.
    pub open spec fn well_formed(self) -> bool {
        self.interval >= 1
    }

    /// The minute anchor holds at `now`.
    pub open spec fn minute_matches(self, now: Moment) -> bool {
        match self.minute {
            Some(minute) => minute == now.spec_minute(),
            None => self.frequency != RecurrenceFrequency::Hourly,
        }
    }

    /// The hour anchor holds at `now`.
    pub open spec fn hour_matches(self, now: Moment) -> bool {
        match self.hour {
            Some(hour) => hour == now.spec_hour(),
            None => self.frequency != RecurrenceFrequency::Daily,
        }
    }

    /// The day-of-month anchor holds at `now`.
    pub open spec fn day_matches(self, now: Moment) -> bool {
        match self.day {
            Some(day) => day == now.spec_day(),
            None => self.frequency != RecurrenceFrequency::Monthly,
        }
    }

    /// The day-of-week anchor holds at `now`.
    pub open spec fn week_day_matches(self, now: Moment) -> bool {
        match self.week_day {
            Some(week_day) => week_day == now.spec_weekday(),
            None => self.frequency != RecurrenceFrequency::Weekly,
        }
    }

    /// The month anchor holds at `now`.
    pub open spec fn month_matches(self, now: Moment) -> bool {
        match self.month {
            Some(month) => month == now.spec_month(),
            None => self.frequency != RecurrenceFrequency::Yearly,
        }
    }

    /// The anchors that matter for the rule's frequency all hold at `now`: the one
    /// the frequency owns and those of every finer granularity.
    pub open spec fn anchors_match(self, now: Moment) -> bool {
        match self.frequency {
            RecurrenceFrequency::Hourly => self.minute_matches(now),
            RecurrenceFrequency::Daily => self.minute_matches(now) && self.hour_matches(now),
            RecurrenceFrequency::Weekly => self.minute_matches(now) && self.hour_matches(now)
                && self.week_day_matches(now),
            RecurrenceFrequency::Monthly => self.minute_matches(now) && self.hour_matches(now)
                && self.day_matches(now),
            RecurrenceFrequency::Yearly => self.minute_matches(now) && self.hour_matches(now)
                && self.day_matches(now) && self.month_matches(now),
        }
    }

    /// `now` lies at or after the start of the rule and, where the rule has an end,
    /// at or before it.
    pub open spec fn in_range(self, now: Moment) -> bool {
        &&& self.start_date.instant() <= now.instant()
        &&& match self.end_date {
            Some(end) => now.instant() <= end.instant(),
            None => true,
        }
    }

    /// The whole days from the start of the rule to `now`.
    pub open spec fn elapsed_days(self, now: Moment) -> int {
        now.elapsed_seconds(self.start_date) / 86_400
    }

    /// The time from the start of the rule to `now` in whole units of the rule's
    /// frequency: hours for Hourly, weeks of seven days for Weekly, days for the
    /// others (a month and a year are not counted by the calendar).
    pub open spec fn elapsed_units(self, now: Moment) -> int {
        match self.frequency {
            RecurrenceFrequency::Hourly => now.elapsed_seconds(self.start_date) / 3600,
            RecurrenceFrequency::Weekly => self.elapsed_days(now) / 7,
            _ => self.elapsed_days(now),
        }
    }

    /// The elapsed units are a multiple of the interval.
    pub open spec fn on_interval(self, now: Moment) -> bool {
        self.elapsed_units(now) % (self.interval as int) == 0
    }

    /// The rule is active at `now`.
    pub open spec fn is_due(self, now: Moment) -> bool {
        &&& self.in_range(now)
        &&& self.on_interval(now)
        &&& self.anchors_match(now)
    }

    /// Decides whether the rule is active at `now`.
    ///
    /// The answer depends on the rule and on `now` alone, so it stays the same for
    /// as long as the wall clock shows the same minute: a caller that must act once
    /// per occurrence keeps its own latch.
    pub fn is_now(&self, now: Moment) -> (r: bool)
        requires
            self.well_formed(),
        ensures
            r == self.is_due(now),
    {
        let start = self.start_date;
        if !start.not_after(&now) {
            return false;
        }
        if let Some(end) = self.end_date {
            if !now.not_after(&end) {
                return false;
            }
        }
        let seconds: i64 = now.seconds_since(&start);
        let units: i64 = match self.frequency {
            RecurrenceFrequency::Hourly => seconds / 3600,
            RecurrenceFrequency::Weekly => (seconds / 86_400) / 7,
            _ => seconds / 86_400,
        };
        if units % self.interval != 0 {
            return false;
        }
        let is_minute = match self.minute {
            Some(minute) => minute == now.minute(),
            None => self.frequency != RecurrenceFrequency::Hourly,
        };
        if !is_minute {
            return false;
        }
        if self.frequency == RecurrenceFrequency::Hourly {
            return true;
        }
        let is_hour = match self.hour {
            Some(hour) => hour == now.hour(),
            None => self.frequency != RecurrenceFrequency::Daily,
        };
        if !is_hour {
            return false;
        }
        match self.frequency {
            RecurrenceFrequency::Weekly => match self.week_day {
                Some(week_day) => week_day == now.weekday(),
                None => false,
            },
            RecurrenceFrequency::Monthly => match self.day {
                Some(day) => day == now.day(),
                None => false,
            },
            RecurrenceFrequency::Yearly => {
                let is_day = match self.day {
                    Some(day) => day == now.day(),
                    None => true,
                };
                let is_month = match self.month {
                    Some(month) => month == now.month(),
                    None => false,
                };
                is_day && is_month
            },
            _ => true,
        }
    }
}

} // verus!
