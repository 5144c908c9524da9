//! Calendar dates held as plain values, with the proleptic Gregorian rules
//! that decide which (year, month, day) triples exist.

use vstd::prelude::*;

verus! {

/// The earliest year that chrono's `NaiveDate` can represent.
pub const MIN_YEAR: i32 = -262143;

/// The latest year that chrono's `NaiveDate` can represent.
pub const MAX_YEAR: i32 = 262142;

/// A leap year is divisible by 4, except centuries not divisible by 400.
pub open spec fn is_leap_year(year: int) -> bool {
    year % 4 == 0 && (year % 100 != 0 || year % 400 == 0)
}

/// Number of days in `month` (1 to 12) of `year`.
pub open spec fn days_in_month(year: int, month: int) -> int {
    if month == 2 {
        if is_leap_year(year) { 29 } else { 28 }
    } else if month == 4 || month == 6 || month == 9 || month == 11 {
        30
    } else {
        31
    }
}

/// Number of days in the months of `year` that come before `month`.
pub open spec fn days_before_month(year: int, month: int) -> int {
    let common: int = if month <= 1 { 0 }
    else if month == 2 { 31 }
    else if month == 3 { 59 }
    else if month == 4 { 90 }
    else if month == 5 { 120 }
    else if month == 6 { 151 }
    else if month == 7 { 181 }
    else if month == 8 { 212 }
    else if month == 9 { 243 }
    else if month == 10 { 273 }
    else if month == 11 { 304 }
    else { 334 };
    if month > 2 && is_leap_year(year) { common + 1 } else { common }
}

/// Whether (year, month, day) names a day of the calendar that chrono can hold.
pub open spec fn valid_ymd(year: int, month: int, day: int) -> bool {
    &&& MIN_YEAR <= year <= MAX_YEAR
    &&& 1 <= month <= 12
    &&& 1 <= day <= days_in_month(year, month)
}

/// A day of the calendar, as year, month (1 to 12) and day of the month.
#[derive(Clone, Copy, Debug, PartialEq, Eq, Structural)]
pub struct CalendarDate {
    pub year: i32,
    pub month: u32,
    pub day: u32,
}

impl CalendarDate {
    /// The fields name a day that exists.
    pub open spec fn wf(&self) -> bool {
        valid_ymd(self.year as int, self.month as int, self.day as int)
    }

    /// Whole days from January 1 of the date's year to the date.
    pub open spec fn days_since_new_year(&self) -> int {
        days_before_month(self.year as int, self.month as int) + self.day - 1
    }

    /// The date comes strictly before `other` in the calendar.
    pub open spec fn before(&self, other: &CalendarDate) -> bool {
        ||| self.year < other.year
        ||| (self.year == other.year && self.month < other.month)
        ||| (self.year == other.year && self.month == other.month && self.day < other.day)
    }

    /// The date, or `None` where no such day exists in the supported range.
    pub fn new(year: i32, month: u32, day: u32) -> (r: Option<CalendarDate>)
        ensures
            r is Some <==> valid_ymd(year as int, month as int, day as int),
            r matches Some(d) ==> d.year == year && d.month == month && d.day == day,
    {
        if year < MIN_YEAR || year > MAX_YEAR || month < 1 || month > 12 || day < 1 {
            return None;
        }
        if day > month_length(year, month) {
            return None;
        }
        Some(CalendarDate { year, month, day })
    }

    /// January 1 of `year`.
    pub fn new_year(year: i32) -> (r: CalendarDate)
        requires
            MIN_YEAR <= year <= MAX_YEAR,
        ensures
            r.wf(),
            r == (CalendarDate { year, month: 1, day: 1 }),
            r.days_since_new_year() == 0,
    {
        CalendarDate { year, month: 1, day: 1 }
    }
}

/// Whether `year` is a leap year.
pub fn leap_year(year: i32) -> (r: bool)
    ensures
        r == is_leap_year(year as int),
{
    let y = year as i64;
    let r4 = y % 4;
    let r100 = y % 100;
    let r400 = y % 400;
    r4 == 0 && (r100 != 0 || r400 == 0)
}

/// Number of days in `month` of `year`.
pub fn month_length(year: i32, month: u32) -> (r: u32)
    requires
        1 <= month <= 12,
    ensures
        r as int == days_in_month(year as int, month as int),
{
    if month == 2 {
        if leap_year(year) { 29 } else { 28 }
    } else if month == 4 || month == 6 || month == 9 || month == 11 {
        30
    } else {
        31
    }
}

/// Relies on chrono's `Datelike::ordinal0` for `NaiveDate`: the day of the
/// year counted from 0, so January 1 gives 0. `NaiveDate::from_ymd_opt`
/// returns `Some` for every date that `wf` admits.
#[verifier::external_body]
pub(crate) fn ordinal0(date: &CalendarDate) -> (r: u32)
    requires
        date.wf(),
    ensures
        r as int == date.days_since_new_year(),
{
    let d = chrono::NaiveDate::from_ymd_opt(date.year, date.month, date.day).unwrap();
    chrono::Datelike::ordinal0(&d)
}

/// Relies on chrono's `Local::now` and `DateTime::date_naive` for today's
/// date in the machine's time zone: any `NaiveDate` that chrono hands out is a
/// day in its supported range. (chrono's `Utc::now` panics only where the
/// system clock reads a time before 1970.)
#[verifier::external_body]
pub(crate) fn local_today() -> (r: CalendarDate)
    ensures
        r.wf(),
{
    let t = chrono::Local::now().date_naive();
    CalendarDate {
        year: chrono::Datelike::year(&t),
        month: chrono::Datelike::month(&t),
        day: chrono::Datelike::day(&t),
    }
}

} // verus!
