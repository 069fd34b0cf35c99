//! Calendar dates, times of day and absolute timestamps.
//!
//! A date is a day of the proleptic Gregorian calendar. Which dates exist and
//! which date follows a given one is asked of `chrono`; everything built on
//! top of those two answers is verified here.

use crate::text::{
    decimal_digits, four_digits, push_decimal, push_four_digits, push_two_digits, string_of,
    two_digits,
};
use chrono::Datelike;
use vstd::prelude::*;

verus! {

/// The earliest year that a [`Date`] can lie in.
pub const MIN_YEAR: i32 = -262143;

/// The latest year that a [`Date`] can lie in.
pub const MAX_YEAR: i32 = 262142;

/// The number of seconds in one day.
pub const SECONDS_PER_DAY: u32 = 86400;

/// Whether `year` is a leap year of the Gregorian calendar.
pub open spec fn is_leap_year(year: int) -> bool {
    year % 4 == 0 && (year % 100 != 0 || year % 400 == 0)
}

/// The number of days of `month` in `year`, for a month from 1 to 12.
pub open spec fn days_in_month(year: int, month: int) -> int {
    if month == 2 {
        if is_leap_year(year) {
            29
        } else {
            28
        }
    } else if month == 4 || month == 6 || month == 9 || month == 11 {
        30
    } else {
        31
    }
}

/// The mathematical model of a date: year, month and day of month.
pub struct CivilDate {
    pub year: int,
    pub month: int,
    pub day: int,
}

impl CivilDate {
    /// Whether the triple names a day that exists, in the supported years.
    pub open spec fn is_valid(self) -> bool {
        &&& MIN_YEAR <= self.year <= MAX_YEAR
        &&& 1 <= self.month <= 12
        &&& 1 <= self.day <= days_in_month(self.year, self.month)
    }

    /// Whether this is the last supported date, which has no successor.
    pub open spec fn is_last(self) -> bool {
        self.year == MAX_YEAR && self.month == 12 && self.day == 31
    }

    /// The following calendar day.
    pub open spec fn next(self) -> CivilDate {
        if self.day < days_in_month(self.year, self.month) {
            CivilDate { year: self.year, month: self.month, day: self.day + 1 }
        } else if self.month < 12 {
            CivilDate { year: self.year, month: self.month + 1, day: 1 }
        } else {
            CivilDate { year: self.year + 1, month: 1, day: 1 }
        }
    }

    /// The date `days` days after this one.
    pub open spec fn plus_days(self, days: nat) -> CivilDate
        decreases days,
    {
        if days == 0 {
            self
        } else {
            self.next().plus_days((days - 1) as nat)
        }
    }

    /// Chronological order: by year, then month, then day.
    pub open spec fn lt(self, other: CivilDate) -> bool {
        ||| self.year < other.year
        ||| self.year == other.year && self.month < other.month
        ||| self.year == other.year && self.month == other.month && self.day < other.day
    }
}

/// Builds the model of a date from its three numbers.
pub open spec fn civil(year: int, month: int, day: int) -> CivilDate {
    CivilDate { year, month, day }
}

/// Every valid date is strictly earlier than its successor, and the
/// successor of any valid date but the last one is valid.
pub proof fn lemma_next_is_later(d: CivilDate)
    requires
        d.is_valid(),
    ensures
        d.lt(d.next()),
        !d.is_last() ==> d.next().is_valid(),
{
}

/// Asks `chrono::NaiveDate::from_ymd_opt` whether the date exists.
///
/// Trusted: chrono accepts exactly the days of the proleptic Gregorian
/// calendar whose year lies between [`MIN_YEAR`] and [`MAX_YEAR`].
#[verifier::external_body]
fn chrono_has_date(year: i32, month: u32, day: u32) -> (r: bool)
    ensures
        r == civil(year as int, month as int, day as int).is_valid(),
{
    chrono::NaiveDate::from_ymd_opt(year, month, day).is_some()
}

/// Asks `chrono::NaiveDate::succ_opt` for the day after a date.
///
/// Trusted: chrono returns the next calendar day, and nothing for the last
/// date that it can represent, December 31 of [`MAX_YEAR`].
#[verifier::external_body]
fn chrono_next_date(year: i32, month: u32, day: u32) -> (r: Option<(i32, u32, u32)>)
    requires
        civil(year as int, month as int, day as int).is_valid(),
    ensures
        r is None <==> civil(year as int, month as int, day as int).is_last(),
        r matches Some(n) ==> civil(n.0 as int, n.1 as int, n.2 as int) == civil(
            year as int,
            month as int,
            day as int,
        ).next(),
{
    let next = chrono::NaiveDate::from_ymd_opt(year, month, day)?.succ_opt()?;
    Some((next.year(), next.month(), next.day()))
}

/// A day of the calendar.
#[derive(Clone, Copy, Debug, PartialEq, Eq, Structural)]
pub struct Date {
    year: i32,
    month: u32,
    day: u32,
}

impl View for Date {
    type V = CivilDate;

    closed spec fn view(&self) -> CivilDate {
        civil(self.year as int, self.month as int, self.day as int)
    }
}

impl Date {
    #[verifier::type_invariant]
    spec fn exists_in_calendar(self) -> bool {
        self@.is_valid()
    }

    /// The date with the given year, month and day, if there is such a day.
    pub fn from_ymd_opt(year: i32, month: u32, day: u32) -> (r: Option<Date>)
        ensures
            r is Some <==> civil(year as int, month as int, day as int).is_valid(),
            r matches Some(d) ==> d@ == civil(year as int, month as int, day as int),
    {
        if chrono_has_date(year, month, day) {
            Some(Date { year, month, day })
        } else {
            None
        }
    }

    /// The year.
    pub fn year(&self) -> (r: i32)
        ensures
            r == self@.year,
            self@.is_valid(),
    {
        proof {
            use_type_invariant(self);
        }
        self.year
    }

    /// The month, from 1 to 12.
    pub fn month(&self) -> (r: u32)
        ensures
            r == self@.month,
            self@.is_valid(),
    {
        proof {
            use_type_invariant(self);
        }
        self.month
    }

    /// The day of the month, from 1 to 31.
    pub fn day(&self) -> (r: u32)
        ensures
            r == self@.day,
            self@.is_valid(),
    {
        proof {
            use_type_invariant(self);
        }
        self.day
    }

    /// The following day, or nothing if this is the last supported date.
    pub fn succ_opt(&self) -> (r: Option<Date>)
        ensures
            r is None <==> self@.is_last(),
            r matches Some(d) ==> d@ == self@.next(),
    {
        proof {
            use_type_invariant(self);
            lemma_next_is_later(self@);
        }
        match chrono_next_date(self.year, self.month, self.day) {
            Some(n) => Some(Date { year: n.0, month: n.1, day: n.2 }),
            None => None,
        }
    }

    /// Whether this date is the same day as `other`.
    pub fn same_day(&self, other: &Date) -> (r: bool)
        ensures
            r == (self@ == other@),
    {
        self.year == other.year && self.month == other.month && self.day == other.day
    }

    /// Whether this date lies before `other`.
    pub fn is_before(&self, other: &Date) -> (r: bool)
        ensures
            r == self@.lt(other@),
    {
        self.year < other.year || (self.year == other.year && (self.month < other.month || (
        self.month == other.month && self.day < other.day)))
    }
}

/// The text of a year: four digits from 0 to 9999; beyond that a sign and
/// at least four digits.
pub open spec fn year_text(year: int) -> Seq<char> {
    if 0 <= year <= 9999 {
        four_digits(year)
    } else if year < 0 {
        seq!['-'] + (if -year <= 9999 {
            four_digits(-year)
        } else {
            decimal_digits((-year) as nat)
        })
    } else {
        seq!['+'] + decimal_digits(year as nat)
    }
}

/// A date as `YYYY-MM-DD`.
pub open spec fn dashed_date_text(d: CivilDate) -> Seq<char> {
    year_text(d.year) + seq!['-'] + two_digits(d.month) + seq!['-'] + two_digits(d.day)
}

/// A date as `YYYYMMDD`.
pub open spec fn compact_date_text(d: CivilDate) -> Seq<char> {
    year_text(d.year) + two_digits(d.month) + two_digits(d.day)
}

impl Date {
    /// Appends the year as [`year_text`] spells it.
    pub(crate) fn push_year(&self, out: &mut Vec<char>)
        ensures
            final(out)@ == old(out)@ + year_text(self@.year),
    {
        let year = self.year();
        if 0 <= year && year <= 9999 {
            push_four_digits(out, year as u32);
        } else if year < 0 {
            out.push('-');
            let magnitude: u32 = (-year) as u32;
            if magnitude <= 9999 {
                push_four_digits(out, magnitude);
            } else {
                push_decimal(out, magnitude as u64);
            }
        } else {
            out.push('+');
            push_decimal(out, year as u64);
        }
    }

    /// Appends the month as two digits.
    pub(crate) fn push_month(&self, out: &mut Vec<char>)
        ensures
            final(out)@ == old(out)@ + two_digits(self@.month),
    {
        push_two_digits(out, self.month());
    }

    /// Appends the day of the month as two digits.
    pub(crate) fn push_day(&self, out: &mut Vec<char>)
        ensures
            final(out)@ == old(out)@ + two_digits(self@.day),
    {
        push_two_digits(out, self.day());
    }

    /// Appends the date as `YYYY-MM-DD`.
    pub(crate) fn push_dashed(&self, out: &mut Vec<char>)
        ensures
            final(out)@ == old(out)@ + dashed_date_text(self@),
    {
        self.push_year(out);
        out.push('-');
        self.push_month(out);
        out.push('-');
        self.push_day(out);
    }

    /// Appends the date as `YYYYMMDD`.
    pub(crate) fn push_compact(&self, out: &mut Vec<char>)
        ensures
            final(out)@ == old(out)@ + compact_date_text(self@),
    {
        self.push_year(out);
        self.push_month(out);
        self.push_day(out);
    }

    /// The date as `YYYY-MM-DD`.
    pub fn format_dashed(&self) -> (r: String)
        ensures
            r@ == dashed_date_text(self@),
    {
        let mut out: Vec<char> = Vec::new();
        self.push_dashed(&mut out);
        string_of(&out)
    }

    /// The date as `YYYYMMDD`.
    pub fn format_compact(&self) -> (r: String)
        ensures
            r@ == compact_date_text(self@),
    {
        let mut out: Vec<char> = Vec::new();
        self.push_compact(&mut out);
        string_of(&out)
    }
}

/// The seconds from midnight to `hour:minute:second`.
pub open spec fn seconds_of(hour: int, minute: int, second: int) -> int {
    hour * 3600 + minute * 60 + second
}

/// A time of day as `HH:MM:SS`, given in seconds from midnight.
pub open spec fn clock_text(secs: int) -> Seq<char> {
    two_digits(secs / 3600) + seq![':'] + two_digits((secs / 60) % 60) + seq![':'] + two_digits(
        secs % 60,
    )
}

/// A time of day as `HHMMSS`, given in seconds from midnight.
pub open spec fn compact_clock_text(secs: int) -> Seq<char> {
    two_digits(secs / 3600) + two_digits((secs / 60) % 60) + two_digits(secs % 60)
}

/// A time of day, to the second.
#[derive(Clone, Copy, Debug, PartialEq, Eq, Structural)]
pub struct TimeOfDay {
    secs: u32,
}

impl View for TimeOfDay {
    type V = int;

    closed spec fn view(&self) -> int {
        self.secs as int
    }
}

impl TimeOfDay {
    #[verifier::type_invariant]
    spec fn within_day(self) -> bool {
        self.secs < SECONDS_PER_DAY
    }

    /// The time `hour:minute:second`, if hour, minute and second are in
    /// range.
    pub fn from_hms_opt(hour: u32, minute: u32, second: u32) -> (r: Option<TimeOfDay>)
        ensures
            r is Some <==> hour < 24 && minute < 60 && second < 60,
            r matches Some(t) ==> t@ == seconds_of(hour as int, minute as int, second as int),
    {
        if hour < 24 && minute < 60 && second < 60 {
            Some(TimeOfDay { secs: hour * 3600 + minute * 60 + second })
        } else {
            None
        }
    }

    /// The time that lies `secs` seconds after midnight, if that is within
    /// the day.
    pub fn from_num_seconds_from_midnight_opt(secs: u32) -> (r: Option<TimeOfDay>)
        ensures
            r is Some <==> secs < SECONDS_PER_DAY,
            r matches Some(t) ==> t@ == secs,
    {
        if secs < SECONDS_PER_DAY {
            Some(TimeOfDay { secs })
        } else {
            None
        }
    }

    /// The seconds since midnight.
    pub fn num_seconds_from_midnight(&self) -> (r: u32)
        ensures
            r == self@,
            r < SECONDS_PER_DAY,
    {
        proof {
            use_type_invariant(self);
        }
        self.secs
    }

    /// The hour, from 0 to 23.
    pub fn hour(&self) -> (r: u32)
        ensures
            r == self@ / 3600,
            r < 24,
    {
        proof {
            use_type_invariant(self);
        }
        self.secs / 3600
    }

    /// The minute, from 0 to 59.
    pub fn minute(&self) -> (r: u32)
        ensures
            r == (self@ / 60) % 60,
            r < 60,
    {
        (self.secs / 60) % 60
    }

    /// The second, from 0 to 59.
    pub fn second(&self) -> (r: u32)
        ensures
            r == self@ % 60,
            r < 60,
    {
        self.secs % 60
    }

    /// Whether this time lies before `other`.
    pub fn is_before(&self, other: &TimeOfDay) -> (r: bool)
        ensures
            r == (self@ < other@),
    {
        self.secs < other.secs
    }

    /// Appends the time as `HH:MM:SS`.
    pub(crate) fn push_clock(&self, out: &mut Vec<char>)
        ensures
            final(out)@ == old(out)@ + clock_text(self@),
    {
        push_two_digits(out, self.hour());
        out.push(':');
        push_two_digits(out, self.minute());
        out.push(':');
        push_two_digits(out, self.second());
    }

    /// Appends the time as `HHMMSS`.
    pub(crate) fn push_compact(&self, out: &mut Vec<char>)
        ensures
            final(out)@ == old(out)@ + compact_clock_text(self@),
    {
        push_two_digits(out, self.hour());
        push_two_digits(out, self.minute());
        push_two_digits(out, self.second());
    }

    /// The time as `HH:MM:SS`.
    pub fn format_clock(&self) -> (r: String)
        ensures
            r@ == clock_text(self@),
    {
        let mut out: Vec<char> = Vec::new();
        self.push_clock(&mut out);
        string_of(&out)
    }

    /// The time as `HHMMSS`.
    pub fn format_compact(&self) -> (r: String)
        ensures
            r@ == compact_clock_text(self@),
    {
        let mut out: Vec<char> = Vec::new();
        self.push_compact(&mut out);
        string_of(&out)
    }
}

/// The mathematical model of a timestamp: a date and the seconds since
/// midnight of that date.
pub struct CivilDateTime {
    pub date: CivilDate,
    pub secs: int,
}

impl CivilDateTime {
    /// Chronological order: by date, then by time of day.
    pub open spec fn lt(self, other: CivilDateTime) -> bool {
        self.date.lt(other.date) || (self.date == other.date && self.secs < other.secs)
    }
}

/// A date together with a time of day.
#[derive(Clone, Copy, Debug, PartialEq, Eq, Structural)]
pub struct DateTime {
    date: Date,
    time: TimeOfDay,
}

impl View for DateTime {
    type V = CivilDateTime;

    closed spec fn view(&self) -> CivilDateTime {
        CivilDateTime { date: self.date@, secs: self.time@ }
    }
}

impl DateTime {
    /// The timestamp at `time` on `date`.
    pub fn new(date: Date, time: TimeOfDay) -> (r: DateTime)
        ensures
            r@.date == date@,
            r@.secs == time@,
    {
        DateTime { date, time }
    }

    /// The date.
    pub fn date(&self) -> (r: Date)
        ensures
            r@ == self@.date,
    {
        self.date
    }

    /// The time of day.
    pub fn time(&self) -> (r: TimeOfDay)
        ensures
            r@ == self@.secs,
    {
        self.time
    }

    /// Whether this timestamp lies before `other`.
    pub fn is_before(&self, other: &DateTime) -> (r: bool)
        ensures
            r == self@.lt(other@),
    {
        self.date.is_before(&other.date) || (self.date.same_day(&other.date)
            && self.time.is_before(&other.time))
    }
}

} // verus!
