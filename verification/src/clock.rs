//! Dates and times of the local clock.

use vstd::prelude::*;

verus! {

/// A local time as the C library breaks it down: the year counts from 1900 and the
/// month from zero.
#[derive(Clone, Copy, PartialEq, Eq, Structural, Debug)]
pub struct BrokenDownTime {
    pub tm_year: i32,
    pub tm_mon: i32,
    pub tm_mday: i32,
    pub tm_hour: i32,
    pub tm_min: i32,
    pub tm_sec: i32,
}

/// A date of the Gregorian calendar and a time of that day.
#[derive(Clone, Copy, PartialEq, Eq, Structural, Debug)]
pub struct LocalDateTime {
    pub year: i32,
    /// From 1 to 12.
    pub month: u8,
    pub day: u8,
    pub hour: u8,
    pub minute: u8,
    pub second: u8,
}

/// A year with a 29th of February.
pub open spec fn is_leap_year(year: int) -> bool {
    year % 4 == 0 && (year % 100 != 0 || year % 400 == 0)
}

/// The number of days of a month.
pub open spec fn days_in_month(year: int, month: int) -> int {
    if month == 2 {
        if is_leap_year(year) {
            29
        } else {
            28
        }
    } else if month == 4 || month == 6 || month == 9 || month == 11 {
        30
    } else {
        31
    }
}

/// A date that the calendar has, in the years that it reaches.
pub open spec fn is_date(year: int, month: int, day: int) -> bool {
    &&& -9999 <= year <= 9999
    &&& 1 <= month <= 12
    &&& 1 <= day <= days_in_month(year, month)
}

/// A time that every day has. A leap second is not one.
pub open spec fn is_time(hour: int, minute: int, second: int) -> bool {
    &&& 0 <= hour <= 23
    &&& 0 <= minute <= 59
    &&& 0 <= second <= 59
}

/// The date and time of a broken-down time, where there is one.
pub open spec fn datetime_of(value: BrokenDownTime) -> Option<LocalDateTime> {
    if is_date(value.tm_year + 1900, value.tm_mon + 1, value.tm_mday as int) && is_time(
        value.tm_hour as int,
        value.tm_min as int,
        value.tm_sec as int,
    ) {
        Some(
            LocalDateTime {
                year: (value.tm_year + 1900) as i32,
                month: (value.tm_mon + 1) as u8,
                day: value.tm_mday as u8,
                hour: value.tm_hour as u8,
                minute: value.tm_min as u8,
                second: value.tm_sec as u8,
            },
        )
    } else {
        None
    }
}

/// A date and time has the fields of the broken-down time that it comes of, each
/// its own: the year counted from the epoch of the calendar, the month from one,
/// and the others as they are.
pub proof fn law_every_field_is_kept(value: BrokenDownTime)
    requires
        datetime_of(value) is Some,
    ensures
        datetime_of(value)->0.year == value.tm_year + 1900,
        datetime_of(value)->0.month == value.tm_mon + 1,
        datetime_of(value)->0.day == value.tm_mday,
        datetime_of(value)->0.hour == value.tm_hour,
        datetime_of(value)->0.minute == value.tm_min,
        datetime_of(value)->0.second == value.tm_sec,
{
}

/// Different broken-down times have different dates and times.
pub proof fn law_datetimes_are_told_apart(a: BrokenDownTime, b: BrokenDownTime)
    requires
        datetime_of(a) is Some,
        datetime_of(a) == datetime_of(b),
    ensures
        a == b,
{
    law_every_field_is_kept(a);
    law_every_field_is_kept(b);
}

/// There is a date and time exactly where every field is within its own bounds:
/// the day within its month, whose length is that of the Gregorian calendar, and
/// the second below sixty.
pub proof fn law_when_there_is_a_datetime(value: BrokenDownTime)
    ensures
        datetime_of(value) is Some <==> {
            &&& -11899 <= value.tm_year <= 8099
            &&& 0 <= value.tm_mon < 12
            &&& 1 <= value.tm_mday <= 31
            &&& value.tm_mday == 31 ==> value.tm_mon == 0 || value.tm_mon == 2 || value.tm_mon == 4
                || value.tm_mon == 6 || value.tm_mon == 7 || value.tm_mon == 9 || value.tm_mon == 11
            &&& value.tm_mday == 30 ==> value.tm_mon != 1
            &&& value.tm_mday == 29 && value.tm_mon == 1 ==> (value.tm_year + 1900) % 4 == 0 && ((
            value.tm_year + 1900) % 100 != 0 || (value.tm_year + 1900) % 400 == 0)
            &&& 0 <= value.tm_hour < 24
            &&& 0 <= value.tm_min < 60
            &&& 0 <= value.tm_sec < 60
        },
{
}

/// A year has 365 days, and 366 where it is divisible by four, but not where it is
/// divisible by a hundred and not by four hundred.
pub proof fn law_the_months_make_a_year(year: int)
    ensures
        days_in_month(year, 1) + days_in_month(year, 2) + days_in_month(year, 3) + days_in_month(
            year,
            4,
        ) + days_in_month(year, 5) + days_in_month(year, 6) + days_in_month(year, 7)
            + days_in_month(year, 8) + days_in_month(year, 9) + days_in_month(year, 10)
            + days_in_month(year, 11) + days_in_month(year, 12) == if year % 400 == 0 {
            366int
        } else if year % 100 == 0 {
            365int
        } else if year % 4 == 0 {
            366int
        } else {
            365int
        },
{
}

/// `Month::try_from` of the `time` crate, by the number of the month that it
/// makes: there is one for each number from 1 to 12, and for no other.
#[verifier::external_body]
fn month_number(number: u8) -> (month: Option<u8>)
    ensures
        month == (if 1 <= number <= 12 {
            Some(number)
        } else {
            None
        }),
{
    time::Month::try_from(number).ok().map(u8::from)
}

/// `Date::from_calendar_date` of the `time` crate, by the year, month and day of
/// the date that it makes: those that it was given, where the calendar has them.
/// The crate's calendar reaches from the year -9999 to 9999, unless its feature
/// `large-dates` is on, and here it is off.
#[verifier::external_body]
fn calendar_date(year: i32, month: u8, day: u8) -> (date: Option<(i32, u8, u8)>)
    requires
        1 <= month <= 12,
    ensures
        date == (if is_date(year as int, month as int, day as int) {
            Some((year, month, day))
        } else {
            None
        }),
{
    let month = time::Month::try_from(month).ok()?;
    let date = time::Date::from_calendar_date(year, month, day).ok()?;
    let (year, month, day) = date.to_calendar_date();
    Some((year, u8::from(month), day))
}

/// `Time::from_hms` of the `time` crate, by the hour, minute and second of the
/// time that it makes: those that it was given, where a day has them.
#[verifier::external_body]
fn clock_time(hour: u8, minute: u8, second: u8) -> (time: Option<(u8, u8, u8)>)
    ensures
        time == (if is_time(hour as int, minute as int, second as int) {
            Some((hour, minute, second))
        } else {
            None
        }),
{
    let time = time::Time::from_hms(hour, minute, second).ok()?;
    Some(time.as_hms())
}

/// A number that fits in a byte.
fn byte_of(number: i32) -> (byte: Option<u8>)
    ensures
        byte == (if 0 <= number <= 255 {
            Some(number as u8)
        } else {
            None
        }),
{
    if 0 <= number && number <= 255 {
        Some(number as u8)
    } else {
        None
    }
}

/// The date and time of a broken-down time, where the calendar and the clock have
/// them.
pub fn datetime_from_tm(value: &BrokenDownTime) -> (datetime: Option<LocalDateTime>)
    requires
        value.tm_mon < i32::MAX,
        0 <= value.tm_mon < 12 ==> value.tm_year <= i32::MAX - 1900,
    ensures
        datetime == datetime_of(*value),
        datetime matches Some(d) ==> {
            &&& d.year == value.tm_year + 1900
            &&& d.month == value.tm_mon + 1
            &&& d.day == value.tm_mday
            &&& d.hour == value.tm_hour
            &&& d.minute == value.tm_min
            &&& d.second == value.tm_sec
        },
        datetime is Some <==> {
            &&& -11899 <= value.tm_year <= 8099
            &&& 0 <= value.tm_mon < 12
            &&& 1 <= value.tm_mday <= 31
            &&& value.tm_mday == 31 ==> value.tm_mon == 0 || value.tm_mon == 2 || value.tm_mon == 4
                || value.tm_mon == 6 || value.tm_mon == 7 || value.tm_mon == 9 || value.tm_mon == 11
            &&& value.tm_mday == 30 ==> value.tm_mon != 1
            &&& value.tm_mday == 29 && value.tm_mon == 1 ==> (value.tm_year + 1900) % 4 == 0 && ((
            value.tm_year + 1900) % 100 != 0 || (value.tm_year + 1900) % 400 == 0)
            &&& 0 <= value.tm_hour < 24
            &&& 0 <= value.tm_min < 60
            &&& 0 <= value.tm_sec < 60
        },
{
    proof {
        law_when_there_is_a_datetime(*value);
    }
    let month = match byte_of(value.tm_mon + 1) {
        Some(number) => match month_number(number) {
            Some(month) => month,
            None => {
                return None;
            },
        },
        None => {
            return None;
        },
    };
    let (year, month, day) = match byte_of(value.tm_mday) {
        Some(day) => match calendar_date(value.tm_year + 1900, month, day) {
            Some(date) => date,
            None => {
                return None;
            },
        },
        None => {
            return None;
        },
    };
    match (byte_of(value.tm_hour), byte_of(value.tm_min), byte_of(value.tm_sec)) {
        (Some(hour), Some(minute), Some(second)) => match clock_time(hour, minute, second) {
            Some((hour, minute, second)) => Some(
                LocalDateTime { year, month, day, hour, minute, second },
            ),
            None => None,
        },
        _ => None,
    }
}

} // verus!
