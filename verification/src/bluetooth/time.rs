//! Points in local time, as the operating system records them and as the
//! library keeps them.

use chrono::NaiveDate;
use chrono::NaiveDateTime;
use vstd::prelude::*;

verus! {

/// `chrono::NaiveDate`, a date without a time zone. The library hands such a
/// value on and never looks inside.
#[verifier::external_type_specification]
#[verifier::external_body]
pub struct ExNaiveDate(NaiveDate);

/// `chrono::NaiveDateTime`, a date and time without a time zone. The library
/// hands such a value on and never looks inside.
#[verifier::external_type_specification]
#[verifier::external_body]
pub struct ExNaiveDateTime(NaiveDateTime);

/// The first year that a `NaiveDate` can hold.
pub const MIN_YEAR: i32 = -262_143;

/// The last year that a `NaiveDate` can hold.
pub const MAX_YEAR: i32 = 262_142;

/// Whether `year` has a 29th of February in the proleptic Gregorian calendar.
pub open spec fn is_leap_year(year: int) -> bool {
    year % 4 == 0 && (year % 100 != 0 || year % 400 == 0)
}

/// The number of days of a month, `month` counted from 1.
pub open spec fn days_in_month(year: int, month: int) -> int {
    if month == 2 {
        if is_leap_year(year) {
            29
        } else {
            28
        }
    } else if month == 4 || month == 6 || month == 9 || month == 11 {
        30
    } else {
        31
    }
}

/// Whether the day exists in the proleptic Gregorian calendar, in a year that
/// a `NaiveDate` can hold.
pub open spec fn is_calendar_date(year: int, month: int, day: int) -> bool {
    &&& MIN_YEAR <= year <= MAX_YEAR
    &&& 1 <= month <= 12
    &&& 1 <= day <= days_in_month(year, month)
}

/// Whether the second exists in a day without a leap second.
pub open spec fn is_time_of_day(hour: int, minute: int, second: int) -> bool {
    &&& 0 <= hour < 24
    &&& 0 <= minute < 60
    &&& 0 <= second < 60
}

/// The date that chrono makes of a calendar day: what
/// `NaiveDate::from_ymd_opt` hands out for these three numbers where the day
/// exists.
pub uninterp spec fn naive_date(year: int, month: int, day: int) -> NaiveDate;

/// The value that chrono makes of a date and a time of day: what
/// `NaiveDate::and_hms_opt` hands out for them where the time of day is
/// valid.
pub uninterp spec fn naive_date_time(
    date: NaiveDate,
    hour: int,
    minute: int,
    second: int,
) -> NaiveDateTime;

/// `NaiveDate::from_ymd_opt` of chrono: a date where the calendar day exists
/// and the year is in range, `None` otherwise. The date depends on the three
/// numbers alone; it is known by the name `naive_date` and not looked into.
pub assume_specification[ NaiveDate::from_ymd_opt ](year: i32, month: u32, day: u32) -> (date:
    Option<NaiveDate>)
    ensures
        date.is_some() <==> is_calendar_date(year as int, month as int, day as int),
        date matches Some(made) ==> made == naive_date(year as int, month as int, day as int),
;

/// `NaiveDate::and_hms_opt` of chrono: the date with a time of day where hour,
/// minute and second are valid, `None` otherwise. The value depends on the
/// date and the three numbers alone; it is known by the name
/// `naive_date_time` and not looked into.
pub assume_specification[ NaiveDate::and_hms_opt ](
    date: &NaiveDate,
    hour: u32,
    min: u32,
    sec: u32,
) -> (stamp: Option<NaiveDateTime>)
    ensures
        stamp.is_some() <==> is_time_of_day(hour as int, min as int, sec as int),
        stamp matches Some(made) ==> made == naive_date_time(
            *date,
            hour as int,
            min as int,
            sec as int,
        ),
;

/// A date and a time of day as plain numbers.
pub ghost struct CivilTime {
    pub year: int,
    pub month: int,
    pub day: int,
    pub hour: int,
    pub minute: int,
    pub second: int,
}

impl CivilTime {
    /// Whether the date exists and the time of day is valid.
    pub open spec fn is_valid(self) -> bool {
        &&& is_calendar_date(self.year, self.month, self.day)
        &&& is_time_of_day(self.hour, self.minute, self.second)
    }

    /// The value that chrono makes of these numbers: of year, month and day
    /// a date, and of that date with hour, minute and second a date and
    /// time.
    pub open spec fn to_naive(self) -> NaiveDateTime {
        naive_date_time(
            naive_date(self.year, self.month, self.day),
            self.hour,
            self.minute,
            self.second,
        )
    }
}

/// A point in time as the operating system records it, field by field.
#[derive(Debug, Clone, Copy, PartialEq, Eq, Structural)]
pub struct RawTime {
    pub year: u16,
    pub month: u16,
    pub day_of_week: u16,
    pub day: u16,
    pub hour: u16,
    pub minute: u16,
    pub second: u16,
    pub milliseconds: u16,
}

/// A point in local time, to the second. It always names a second that
/// exists.
#[derive(Debug, Clone, Copy, PartialEq, Eq, Structural)]
pub struct Time {
    year: i32,
    month: u32,
    day: u32,
    hour: u32,
    minute: u32,
    second: u32,
}

impl View for Time {
    type V = CivilTime;

    closed spec fn view(&self) -> CivilTime {
        CivilTime {
            year: self.year as int,
            month: self.month as int,
            day: self.day as int,
            hour: self.hour as int,
            minute: self.minute as int,
            second: self.second as int,
        }
    }
}

impl RawTime {
    /// The date and time of day that the record names. The day of the week
    /// and the milliseconds play no part.
    pub open spec fn civil(&self) -> CivilTime {
        CivilTime {
            year: self.year as int,
            month: self.month as int,
            day: self.day as int,
            hour: self.hour as int,
            minute: self.minute as int,
            second: self.second as int,
        }
    }

    /// Whether the record names a second that exists.
    pub open spec fn is_valid(&self) -> bool {
        self.civil().is_valid()
    }

    /// The point in time that the record names, or `None` where it names
    /// none.
    pub fn to_time(&self) -> (time: Option<Time>)
        ensures
            time.is_some() <==> self.is_valid(),
            time matches Some(t) ==> t@ == self.civil(),
    {
        let year: i32 = self.year as i32;
        let month: u32 = self.month as u32;
        let day: u32 = self.day as u32;
        let hour: u32 = self.hour as u32;
        let minute: u32 = self.minute as u32;
        let second: u32 = self.second as u32;
        match NaiveDate::from_ymd_opt(year, month, day) {
            None => None,
            Some(date) => match date.and_hms_opt(hour, minute, second) {
                None => None,
                Some(_) => Some(Time { year, month, day, hour, minute, second }),
            },
        }
    }
}

impl Time {
    #[verifier::type_invariant]
    spec fn names_a_second(self) -> bool {
        self@.is_valid()
    }

    /// The year, in the proleptic Gregorian calendar.
    pub fn year(&self) -> (year: i32)
        ensures
            year == self@.year,
            self@.is_valid(),
    {
        proof {
            use_type_invariant(self);
        }
        self.year
    }

    /// The month, from 1 to 12.
    pub fn month(&self) -> (month: u32)
        ensures
            month == self@.month,
            self@.is_valid(),
    {
        proof {
            use_type_invariant(self);
        }
        self.month
    }

    /// The day of the month, from 1.
    pub fn day(&self) -> (day: u32)
        ensures
            day == self@.day,
            self@.is_valid(),
    {
        proof {
            use_type_invariant(self);
        }
        self.day
    }

    /// The hour, from 0 to 23.
    pub fn hour(&self) -> (hour: u32)
        ensures
            hour == self@.hour,
            self@.is_valid(),
    {
        proof {
            use_type_invariant(self);
        }
        self.hour
    }

    /// The minute, from 0 to 59.
    pub fn minute(&self) -> (minute: u32)
        ensures
            minute == self@.minute,
            self@.is_valid(),
    {
        proof {
            use_type_invariant(self);
        }
        self.minute
    }

    /// The second, from 0 to 59.
    pub fn second(&self) -> (second: u32)
        ensures
            second == self@.second,
            self@.is_valid(),
    {
        proof {
            use_type_invariant(self);
        }
        self.second
    }

    /// The same point in time as a value of chrono: the one that chrono
    /// makes of the year, month, day, hour, minute and second of this time.
    pub fn to_naive_date_time(&self) -> (stamp: NaiveDateTime)
        ensures
            stamp == self@.to_naive(),
    {
        proof {
            use_type_invariant(self);
        }
        let date = NaiveDate::from_ymd_opt(self.year, self.month, self.day).unwrap();
        date.and_hms_opt(self.hour, self.minute, self.second).unwrap()
    }
}

} // verus!
