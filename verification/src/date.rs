//! Calendar dates and timestamps, modelled as plain values.
//!
//! A `Date` is a day in the proleptic Gregorian calendar, restricted to the
//! years 0 through 9999 so that every date has a fixed-width, zero-padded
//! `YYYY/MM/DD` route. A `DateTime` is a date with a time of day in UTC.
//! A `PageTime` mirrors a content record's date property, which may carry
//! either a bare calendar date or a full timestamp.

use vstd::prelude::*;

verus! {

/// A calendar date. Valid values satisfy [`Date::wf`].
#[derive(Clone, Copy, PartialEq, Eq, Structural, Debug)]
pub struct Date {
    pub year: i32,
    pub month: u8,
    pub day: u8,
}

/// A date with a time of day, understood as UTC.
#[derive(Clone, Copy, PartialEq, Eq, Structural, Debug)]
pub struct DateTime {
    pub date: Date,
    pub hour: u8,
    pub minute: u8,
    pub second: u8,
}

/// A date property's payload: either a bare calendar date or a timestamp.
#[derive(Clone, Copy, PartialEq, Eq, Structural, Debug)]
pub enum PageTime {
    Day(Date),
    Moment(DateTime),
}

/// Whether `year` is a leap year in the Gregorian calendar.
pub open spec fn spec_is_leap_year(year: int) -> bool {
    year % 4 == 0 && (year % 100 != 0 || year % 400 == 0)
}

/// Number of days in `month` of `year`, for months 1 through 12.
pub open spec fn spec_days_in_month(year: int, month: int) -> int {
    if month == 2 {
        if spec_is_leap_year(year) {
            29
        } else {
            28
        }
    } else if month == 4 || month == 6 || month == 9 || month == 11 {
        30
    } else {
        31
    }
}

impl Date {
    /// A well-formed date: a real calendar day within the supported years.
    pub open spec fn wf(self) -> bool {
        &&& 0 <= self.year <= 9999
        &&& 1 <= self.month <= 12
        &&& 1 <= self.day <= spec_days_in_month(self.year as int, self.month as int)
    }
}

impl DateTime {
    pub open spec fn wf(self) -> bool {
        &&& self.date.wf()
        &&& self.hour < 24
        &&& self.minute < 60
        &&& self.second < 60
    }

    /// Midnight at the start of `date`.
    pub open spec fn spec_midnight(date: Date) -> DateTime {
        DateTime { date, hour: 0, minute: 0, second: 0 }
    }

    /// Whether the time of day is exactly midnight.
    pub open spec fn spec_is_midnight(self) -> bool {
        self.hour == 0 && self.minute == 0 && self.second == 0
    }
}

impl PageTime {
    pub open spec fn wf(self) -> bool {
        match self {
            PageTime::Day(d) => d.wf(),
            PageTime::Moment(m) => m.wf(),
        }
    }

    /// The calendar-date part of the value.
    pub open spec fn spec_date_part(self) -> Date {
        match self {
            PageTime::Day(d) => d,
            PageTime::Moment(m) => m.date,
        }
    }

    /// The value as a timestamp: a bare date is normalized to midnight UTC.
    pub open spec fn spec_instant(self) -> DateTime {
        match self {
            PageTime::Day(d) => DateTime::spec_midnight(d),
            PageTime::Moment(m) => m,
        }
    }
}

/// Ordering of dates: lexicographic on (year, month, day).
pub open spec fn date_le(a: Date, b: Date) -> bool {
    if a.year != b.year {
        a.year < b.year
    } else if a.month != b.month {
        a.month < b.month
    } else {
        a.day <= b.day
    }
}

pub open spec fn date_lt(a: Date, b: Date) -> bool {
    date_le(a, b) && a != b
}

/// Ordering of timestamps: lexicographic on the date, then the time of day.
pub open spec fn datetime_le(a: DateTime, b: DateTime) -> bool {
    if a.date != b.date {
        date_lt(a.date, b.date)
    } else if a.hour != b.hour {
        a.hour < b.hour
    } else if a.minute != b.minute {
        a.minute < b.minute
    } else {
        a.second <= b.second
    }
}

pub open spec fn datetime_lt(a: DateTime, b: DateTime) -> bool {
    datetime_le(a, b) && a != b
}

impl Date {
    /// Compare two dates.
    pub fn le(&self, other: &Date) -> (r: bool)
        ensures
            r == date_le(*self, *other),
    {
        if self.year != other.year {
            self.year < other.year
        } else if self.month != other.month {
            self.month < other.month
        } else {
            self.day <= other.day
        }
    }

    pub fn lt(&self, other: &Date) -> (r: bool)
        ensures
            r == date_lt(*self, *other),
    {
        if self.year != other.year {
            self.year < other.year
        } else if self.month != other.month {
            self.month < other.month
        } else {
            self.day < other.day
        }
    }

    /// Number of days in this date's month.
    pub fn days_in_month(&self) -> (r: u8)
        requires
            1 <= self.month <= 12,
        ensures
            r as int == spec_days_in_month(self.year as int, self.month as int),
    {
        if self.month == 2 {
            let leap = self.year % 4 == 0 && (self.year % 100 != 0 || self.year % 400 == 0);
            if leap {
                29
            } else {
                28
            }
        } else if self.month == 4 || self.month == 6 || self.month == 9 || self.month == 11 {
            30
        } else {
            31
        }
    }

    /// The next calendar day, or `None` past the last supported date.
    pub fn next_day(&self) -> (r: Option<Date>)
        requires
            self.wf(),
        ensures
            r == spec_next_day(*self),
            r is Some ==> r->0.wf(),
    {
        if self.day < self.days_in_month() {
            Some(Date { year: self.year, month: self.month, day: self.day + 1 })
        } else if self.month < 12 {
            Some(Date { year: self.year, month: self.month + 1, day: 1 })
        } else if self.year < 9999 {
            Some(Date { year: self.year + 1, month: 1, day: 1 })
        } else {
            None
        }
    }

    /// The previous calendar day, or `None` before the first supported date.
    pub fn previous_day(&self) -> (r: Option<Date>)
        requires
            self.wf(),
        ensures
            r == spec_previous_day(*self),
            r is Some ==> r->0.wf(),
    {
        if self.day > 1 {
            Some(Date { year: self.year, month: self.month, day: self.day - 1 })
        } else if self.month > 1 {
            let prev = Date { year: self.year, month: self.month - 1, day: 1 };
            Some(Date { year: self.year, month: self.month - 1, day: prev.days_in_month() })
        } else if self.year > 0 {
            Some(Date { year: self.year - 1, month: 12, day: 31 })
        } else {
            None
        }
    }
}

/// The day after `d`, if it stays within the supported years.
pub open spec fn spec_next_day(d: Date) -> Option<Date> {
    if d.day < spec_days_in_month(d.year as int, d.month as int) {
        Some(Date { year: d.year, month: d.month, day: (d.day + 1) as u8 })
    } else if d.month < 12 {
        Some(Date { year: d.year, month: (d.month + 1) as u8, day: 1 })
    } else if d.year < 9999 {
        Some(Date { year: (d.year + 1) as i32, month: 1, day: 1 })
    } else {
        None
    }
}

/// The day before `d`, if it stays within the supported years.
pub open spec fn spec_previous_day(d: Date) -> Option<Date> {
    if d.day > 1 {
        Some(Date { year: d.year, month: d.month, day: (d.day - 1) as u8 })
    } else if d.month > 1 {
        Some(
            Date {
                year: d.year,
                month: (d.month - 1) as u8,
                day: spec_days_in_month(d.year as int, d.month - 1) as u8,
            },
        )
    } else if d.year > 0 {
        Some(Date { year: (d.year - 1) as i32, month: 12, day: 31 })
    } else {
        None
    }
}

impl DateTime {
    pub fn le(&self, other: &DateTime) -> (r: bool)
        ensures
            r == datetime_le(*self, *other),
    {
        if self.date.year != other.date.year || self.date.month != other.date.month
            || self.date.day != other.date.day {
            self.date.lt(&other.date)
        } else if self.hour != other.hour {
            self.hour < other.hour
        } else if self.minute != other.minute {
            self.minute < other.minute
        } else {
            self.second <= other.second
        }
    }

    pub fn midnight(date: Date) -> (r: DateTime)
        ensures
            r == DateTime::spec_midnight(date),
    {
        DateTime { date, hour: 0, minute: 0, second: 0 }
    }

    pub fn is_midnight(&self) -> (r: bool)
        ensures
            r == self.spec_is_midnight(),
    {
        self.hour == 0 && self.minute == 0 && self.second == 0
    }
}

impl PageTime {
    /// The calendar-date part of the value.
    pub fn date_part(&self) -> (r: Date)
        ensures
            r == self.spec_date_part(),
    {
        match self {
            PageTime::Day(d) => *d,
            PageTime::Moment(m) => m.date,
        }
    }

    /// The value as a timestamp: a bare date is normalized to midnight UTC.
    pub fn instant(&self) -> (r: DateTime)
        ensures
            r == self.spec_instant(),
    {
        match self {
            PageTime::Day(d) => DateTime::midnight(*d),
            PageTime::Moment(m) => *m,
        }
    }
}

} // verus!
