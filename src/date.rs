//! A calendar date held as year, month and day, and the calendar arithmetic
//! that the windows need, done by chrono.

use vstd::prelude::*;
use chrono::{Datelike, Months, NaiveDate, Weekday};
use crate::calendar::{day_of_index, Day};

verus! {

/// The earliest year that a date may have.
pub const MIN_YEAR: i32 = -262143;

/// The latest year that a date may have.
pub const MAX_YEAR: i32 = 262142;

pub open spec fn is_leap_year(y: int) -> bool {
    (y % 4 == 0 && y % 100 != 0) || y % 400 == 0
}

/// How many days month `m` of year `y` has.
pub open spec fn days_in_month(y: int, m: int) -> int {
    if m == 2 {
        if is_leap_year(y) { 29 } else { 28 }
    } else if m == 4 || m == 6 || m == 9 || m == 11 {
        30
    } else {
        31
    }
}

/// Days in year `y` before the first of month `m`.
pub open spec fn days_before_month(y: int, m: int) -> int {
    let base: int = if m == 1 { 0 }
        else if m == 2 { 31 }
        else if m == 3 { 59 }
        else if m == 4 { 90 }
        else if m == 5 { 120 }
        else if m == 6 { 151 }
        else if m == 7 { 181 }
        else if m == 8 { 212 }
        else if m == 9 { 243 }
        else if m == 10 { 273 }
        else if m == 11 { 304 }
        else { 334 };
    if m > 2 && is_leap_year(y) { base + 1 } else { base }
}

/// A day of the proleptic Gregorian calendar.
#[derive(Clone, Copy, PartialEq, Eq, Structural, Debug, Hash)]
pub struct Date {
    pub year: i32,
    pub month: u32,
    pub day: u32,
}

impl Date {
    /// The date exists and lies in the supported range of years.
    pub open spec fn wf(self) -> bool {
        &&& MIN_YEAR <= self.year <= MAX_YEAR
        &&& 1 <= self.month <= 12
        &&& 1 <= self.day <= days_in_month(self.year as int, self.month as int)
    }

    /// A number that orders dates as the calendar does: by year, then month,
    /// then day.
    pub open spec fn key(self) -> int {
        self.year * 512 + self.month * 32 + self.day
    }

    /// The number of months from January of year 0 to this date's month.
    pub open spec fn month_index(self) -> int {
        self.year * 12 + self.month - 1
    }

    /// Days from 1 January of year 1 to this date.
    pub open spec fn day_number(self) -> int {
        let y = self.year - 1;
        365 * y + y / 4 - y / 100 + y / 400
            + days_before_month(self.year as int, self.month as int) + self.day - 1
    }

    /// The weekday of this date; 1 January of year 1 was a Monday.
    pub open spec fn weekday(self) -> Day {
        day_of_index(self.day_number())
    }

    pub open spec fn is_max(self) -> bool {
        self.year == MAX_YEAR && self.month == 12 && self.day == 31
    }

    pub open spec fn is_min(self) -> bool {
        self.year == MIN_YEAR && self.month == 1 && self.day == 1
    }

    /// The last day of this date's month.
    pub open spec fn month_end(self) -> Date {
        Date { day: days_in_month(self.year as int, self.month as int) as u32, ..self }
    }

    /// The day after this one.
    pub open spec fn next(self) -> Date {
        if self.day < days_in_month(self.year as int, self.month as int) {
            Date { day: (self.day + 1) as u32, ..self }
        } else if self.month < 12 {
            Date { month: (self.month + 1) as u32, day: 1, ..self }
        } else {
            Date { year: (self.year + 1) as i32, month: 1, day: 1 }
        }
    }

    /// The day before this one.
    pub open spec fn prev(self) -> Date {
        if self.day > 1 {
            Date { day: (self.day - 1) as u32, ..self }
        } else if self.month > 1 {
            Date {
                month: (self.month - 1) as u32,
                day: days_in_month(self.year as int, self.month - 1) as u32,
                ..self
            }
        } else {
            Date { year: (self.year - 1) as i32, month: 12, day: 31 }
        }
    }

    /// This date moved `k` months on, its day lowered to the new month's last
    /// day where that month is shorter.
    pub open spec fn plus_months(self, k: int) -> Date {
        let t = self.month_index() + k;
        let y = t / 12;
        let m = t % 12 + 1;
        let d = if self.day > days_in_month(y, m) { days_in_month(y, m) } else { self.day as int };
        Date { year: y as i32, month: m as u32, day: d as u32 }
    }

    /// The same date with the day of the month replaced.
    pub open spec fn with_day(self, day: u32) -> Date {
        Date { day, ..self }
    }

    /// The date, if it exists and its year is supported.
    pub fn new(year: i32, month: u32, day: u32) -> (r: Option<Date>)
        ensures
            r is Some <==> (Date { year, month, day }).wf(),
            r is Some ==> r->0 == (Date { year, month, day }),
    {
        if year < MIN_YEAR || year > MAX_YEAR || month < 1 || month > 12 || day < 1 {
            None
        } else if day > month_length(year, month) {
            None
        } else {
            Some(Date { year, month, day })
        }
    }

    pub fn year(&self) -> (r: i32)
        ensures
            r == self.year,
    {
        self.year
    }

    pub fn month(&self) -> (r: u32)
        ensures
            r == self.month,
    {
        self.month
    }

    pub fn day(&self) -> (r: u32)
        ensures
            r == self.day,
    {
        self.day
    }

    /// Whether this date is on or before `other`.
    pub fn is_on_or_before(&self, other: &Date) -> (r: bool)
        requires
            self.wf(),
            other.wf(),
        ensures
            r == (self.key() <= other.key()),
    {
        self.year < other.year || (self.year == other.year && (self.month < other.month
            || (self.month == other.month && self.day <= other.day)))
    }
}

impl Date {
    /// The last day of this date's month, found by walking forward a day at a
    /// time while the month stays the same.
    pub fn last_of_month(&self) -> (r: Date)
        requires
            self.wf(),
            !(self.year == MAX_YEAR && self.month == 12),
        ensures
            r == self.month_end(),
    {
        let mut date = *self;
        let mut next_date = date;
        while date.month == next_date.month
            invariant
                self.wf(),
                !(self.year == MAX_YEAR && self.month == 12),
                date.wf(),
                date.year == self.year,
                date.month == self.month,
                next_date.wf(),
                next_date == date || next_date == date.next(),
            decreases
                2 * (days_in_month(self.year as int, self.month as int) - date.day)
                    + (if next_date == date { 1int } else { 0int }),
        {
            date = next_date;
            next_date = succ(next_date).unwrap();
        }
        date
    }
}

/// The number of days in a month.
pub fn month_length(year: i32, month: u32) -> (r: u32)
    requires
        1 <= month <= 12,
    ensures
        r == days_in_month(year as int, month as int),
{
    if month == 2 {
        if (year % 4 == 0 && year % 100 != 0) || year % 400 == 0 {
            29
        } else {
            28
        }
    } else if month == 4 || month == 6 || month == 9 || month == 11 {
        30
    } else {
        31
    }
}

/// Relies on `NaiveDate::succ_opt`: the next day, or `None` after the last
/// date that chrono represents.
#[verifier::external_body]
pub(crate) fn succ(d: Date) -> (r: Option<Date>)
    requires
        d.wf(),
    ensures
        r == (if d.is_max() { None::<Date> } else { Some(d.next()) }),
{
    match NaiveDate::from_ymd_opt(d.year, d.month, d.day).unwrap().succ_opt() {
        Some(x) => Some(Date { year: x.year(), month: x.month(), day: x.day() }),
        None => None,
    }
}

/// Relies on `NaiveDate::pred_opt`: the previous day, or `None` before the
/// first date that chrono represents.
#[verifier::external_body]
pub(crate) fn pred(d: Date) -> (r: Option<Date>)
    requires
        d.wf(),
    ensures
        r == (if d.is_min() { None::<Date> } else { Some(d.prev()) }),
{
    match NaiveDate::from_ymd_opt(d.year, d.month, d.day).unwrap().pred_opt() {
        Some(x) => Some(Date { year: x.year(), month: x.month(), day: x.day() }),
        None => None,
    }
}

/// Relies on `NaiveDate::checked_add_months`: `k` months on, the day clamped
/// to the end of a shorter month, or `None` when the year leaves chrono's range.
#[verifier::external_body]
pub(crate) fn add_months(d: Date, k: u32) -> (r: Option<Date>)
    requires
        d.wf(),
    ensures
        r == (if d.plus_months(k as int).year <= MAX_YEAR {
            Some(d.plus_months(k as int))
        } else {
            None::<Date>
        }),
{
    let x = NaiveDate::from_ymd_opt(d.year, d.month, d.day).unwrap();
    match x.checked_add_months(Months::new(k)) {
        Some(x) => Some(Date { year: x.year(), month: x.month(), day: x.day() }),
        None => None,
    }
}

/// Relies on `NaiveDate::with_day`: the same month with another day, or
/// `None` where the month has no such day.
#[verifier::external_body]
pub(crate) fn replace_day(d: Date, day: u32) -> (r: Option<Date>)
    requires
        d.wf(),
    ensures
        r == (if 1 <= day <= days_in_month(d.year as int, d.month as int) {
            Some(d.with_day(day))
        } else {
            None::<Date>
        }),
{
    match NaiveDate::from_ymd_opt(d.year, d.month, d.day).unwrap().with_day(day) {
        Some(x) => Some(Date { year: x.year(), month: x.month(), day: x.day() }),
        None => None,
    }
}

/// Relies on `NaiveDate::weekday`: the weekday in the proleptic Gregorian
/// calendar.
#[verifier::external_body]
pub(crate) fn weekday_of(d: Date) -> (r: Day)
    requires
        d.wf(),
    ensures
        r == d.weekday(),
{
    match NaiveDate::from_ymd_opt(d.year, d.month, d.day).unwrap().weekday() {
        Weekday::Mon => Day::Monday,
        Weekday::Tue => Day::Tuesday,
        Weekday::Wed => Day::Wednesday,
        Weekday::Thu => Day::Thursday,
        Weekday::Fri => Day::Friday,
        Weekday::Sat => Day::Saturday,
        Weekday::Sun => Day::Sunday,
    }
}

/// Relies on `chrono::Local::now` and `DateTime::date_naive`: today's date in
/// the local time zone. Nothing is known of it but that chrono can hold it.
#[verifier::external_body]
pub(crate) fn today() -> (r: Date)
    ensures
        r.wf(),
{
    let x = chrono::Local::now().date_naive();
    Date { year: x.year(), month: x.month(), day: x.day() }
}

} // verus!
