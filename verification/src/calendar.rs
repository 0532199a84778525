//! Calendar dates, times of day and the reading of the clock that dates in a
//! text are resolved against.

use vstd::prelude::*;

verus! {

/// A day of the Gregorian calendar.
#[derive(Clone, Copy, Debug, PartialEq, Eq, Structural)]
pub struct Date {
    pub year: i32,
    /// 1 for January to 12 for December.
    pub month: u32,
    /// 1 for the first day of the month.
    pub day: u32,
}

/// A time of day, to the minute.
#[derive(Clone, Copy, Debug, PartialEq, Eq, Structural)]
pub struct TimeOfDay {
    pub hour: u32,
    pub minute: u32,
}

/// A reading of the local clock.
#[derive(Clone, Copy, Debug, PartialEq, Eq, Structural)]
pub struct Moment {
    pub date: Date,
    pub time: TimeOfDay,
    pub second: u32,
    /// What local time is ahead of UTC, in seconds.
    pub utc_offset: i32,
}

/// Whether `year` has a 29th of February.
pub open spec fn is_leap_year(year: int) -> bool {
    year % 4 == 0 && (year % 100 != 0 || year % 400 == 0)
}

/// The number of days of a month.
pub open spec fn days_in_month(year: int, month: int) -> int {
    if month == 2 {
        if is_leap_year(year) {
            29
        } else {
            28
        }
    } else if month == 4 || month == 6 || month == 9 || month == 11 {
        30
    } else {
        31
    }
}

/// The day of the week of a date, counted from Monday as 0, as
/// `chrono::Datelike::weekday` and `Weekday::num_days_from_monday` give it.
pub uninterp spec fn weekday_from_monday(year: int, month: int, day: int) -> int;

/// The day of the week of a date, 0 for Monday.
pub open spec fn weekday_of(date: Date) -> int {
    weekday_from_monday(date.year as int, date.month as int, date.day as int)
}

/// The days of the week follow one another: the day `k` days after `date`,
/// for the week to come, is `k` days of the week after `day`.
pub open spec fn week_follows(date: Date, day: int) -> bool {
    forall|k: nat| k <= 7 ==> weekday_of(#[trigger] date.plus_days(k)) == (day + k) % 7
}

impl Date {
    /// The date is on the calendar.
    pub open spec fn on_calendar(self) -> bool {
        &&& 1 <= self.month <= 12
        &&& 1 <= self.day <= days_in_month(self.year as int, self.month as int)
    }

    /// The date is on the calendar and its year has four digits.
    pub open spec fn valid(self) -> bool {
        &&& 0 <= self.year <= 9999
        &&& self.on_calendar()
    }

    /// The day after.
    pub open spec fn next_day(self) -> Date {
        if self.day < days_in_month(self.year as int, self.month as int) {
            Date { day: (self.day + 1) as u32, ..self }
        } else if self.month < 12 {
            Date { month: (self.month + 1) as u32, day: 1, ..self }
        } else {
            Date { year: (self.year + 1) as i32, month: 1, day: 1 }
        }
    }

    /// The date `days` days later.
    pub open spec fn plus_days(self, days: nat) -> Date
        decreases days,
    {
        if days == 0 {
            self
        } else {
            self.next_day().plus_days((days - 1) as nat)
        }
    }

    /// Whether the date is on the calendar, in a year of four digits.
    pub fn is_valid(&self) -> (r: bool)
        ensures
            r == self.valid(),
    {
        if self.year < 0 || self.year > 9999 || self.month < 1 || self.month > 12 || self.day < 1 {
            return false;
        }
        let leap = self.year % 4 == 0 && (self.year % 100 != 0 || self.year % 400 == 0);
        let last: u32 = if self.month == 2 {
            if leap {
                29
            } else {
                28
            }
        } else if self.month == 4 || self.month == 6 || self.month == 9 || self.month == 11 {
            30
        } else {
            31
        };
        self.day <= last
    }
}

impl TimeOfDay {
    /// The time is one of a day's 1440 minutes.
    pub open spec fn valid(self) -> bool {
        self.hour < 24 && self.minute < 60
    }

    /// `self` is not later in the day than `other`.
    pub open spec fn not_after(self, other: TimeOfDay) -> bool {
        self.hour < other.hour || (self.hour == other.hour && self.minute <= other.minute)
    }

    /// The time of day `hour:minute`, if there is one.
    pub fn from_hm(hour: u32, minute: u32) -> (r: Option<TimeOfDay>)
        ensures
            r == if hour < 24 && minute < 60 {
                Some(TimeOfDay { hour, minute })
            } else {
                None
            },
    {
        if hour < 24 && minute < 60 {
            Some(TimeOfDay { hour, minute })
        } else {
            None
        }
    }

    /// Whether `self` is not later in the day than `other`.
    pub fn is_not_after(&self, other: &TimeOfDay) -> (r: bool)
        ensures
            r == self.not_after(*other),
    {
        self.hour < other.hour || (self.hour == other.hour && self.minute <= other.minute)
    }
}

impl Moment {
    /// A reading that a clock can show, on a date before the last of the
    /// four-digit years: the week that follows it has four-digit years too.
    pub open spec fn wf(self) -> bool {
        &&& self.date.valid()
        &&& self.date.year < 9999
        &&& self.time.valid()
        &&& self.second < 60
        &&& -86400 < self.utc_offset < 86400
    }

    /// Whether the reading is one that a clock can show.
    pub fn is_wf(&self) -> (r: bool)
        ensures
            r == self.wf(),
    {
        self.date.is_valid() && self.date.year < 9999 && self.time.hour < 24 && self.time.minute
            < 60 && self.second < 60 && -86400 < self.utc_offset && self.utc_offset < 86400
    }
}

/// A date on the calendar has a day after it on the calendar, in the same
/// year or on the first of January of the next.
pub proof fn lemma_next_day(date: Date)
    requires
        date.on_calendar(),
        date.year < i32::MAX,
    ensures
        date.next_day().on_calendar(),
        date.next_day().year == date.year || (date.next_day().year == date.year + 1
            && date.next_day().month == 1 && date.next_day().day == 1),
{
}

/// Up to a month after a date of a four-digit year before the last, the year
/// has four digits still.
pub proof fn lemma_plus_days_valid(date: Date, days: nat)
    requires
        date.valid(),
        date.year < 9999,
        days <= 28,
    ensures
        date.plus_days(days).valid(),
        date.plus_days(days).year == date.year || (date.plus_days(days).year == date.year + 1
            && date.plus_days(days).month == 1 && date.plus_days(days).day <= days),
    decreases days,
{
    if days > 0 {
        lemma_next_day(date);
        let next = date.next_day();
        if next.year == date.year {
            lemma_plus_days_valid(next, (days - 1) as nat);
        } else {
            lemma_plus_days_in_january(next, (days - 1) as nat);
        }
    }
}

/// The days of January that follow a day of January.
proof fn lemma_plus_days_in_january(date: Date, days: nat)
    requires
        date.valid(),
        date.month == 1,
        date.day + days <= 31,
    ensures
        date.plus_days(days) == (Date { day: (date.day + days) as u32, ..date }),
    decreases days,
{
    if days > 0 {
        lemma_plus_days_in_january(date.next_day(), (days - 1) as nat);
    }
}

/// `chrono::NaiveDate::checked_add_days`, on the date that
/// `chrono::NaiveDate::from_ymd_opt` makes of `date`: the date `days` days
/// later in the Gregorian calendar. Both succeed on a date of a four-digit
/// year and a week.
#[verifier::external_body]
pub(crate) fn date_plus_days(date: &Date, days: u32) -> (r: Date)
    requires
        date.valid(),
        days <= 7,
    ensures
        r == date.plus_days(days as nat),
{
    let start = chrono::NaiveDate::from_ymd_opt(date.year, date.month, date.day).unwrap();
    let end = start.checked_add_days(chrono::Days::new(u64::from(days))).unwrap();
    Date {
        year: chrono::Datelike::year(&end),
        month: chrono::Datelike::month(&end),
        day: chrono::Datelike::day(&end),
    }
}

/// `chrono::Datelike::weekday` and `chrono::Weekday::num_days_from_monday`,
/// on the date that `chrono::NaiveDate::from_ymd_opt` makes of `date`: the day
/// of the week, 0 for Monday to 6 for Sunday. Each day of the calendar is
/// the day of the week after that of the day before it.
#[verifier::external_body]
pub(crate) fn weekday_index(date: &Date) -> (r: u32)
    requires
        date.valid(),
    ensures
        r == weekday_from_monday(date.year as int, date.month as int, date.day as int),
        r < 7,
        week_follows(*date, r as int),
{
    let day = chrono::NaiveDate::from_ymd_opt(date.year, date.month, date.day).unwrap();
    chrono::Datelike::weekday(&day).num_days_from_monday()
}

} // verus!
