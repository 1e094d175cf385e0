//! The calendar, with a day given by its Julian day number.

use time::Date;
use time::Duration;
use time::OffsetDateTime;
use vstd::prelude::*;

verus! {

/// The Julian day of the first of January -9999, the first day of the calendar.
pub const FIRST_DAY: i32 = -1_930_999;

/// The Julian day of the last of December 9999, the last day of the calendar.
pub const LAST_DAY: i32 = 5_373_484;

/// Whether a day is one of the calendar's.
pub open spec fn in_calendar(julian_day: int) -> bool {
    FIRST_DAY <= julian_day <= LAST_DAY
}

/// Whether a year has a day more than others.
pub open spec fn is_leap_year(year: int) -> bool {
    year % 4 == 0 && (year % 100 != 0 || year % 400 == 0)
}

/// How many days of a year lie before one of its months.
pub open spec fn days_before_month(year: int, month: int) -> int {
    let leap_day: int = if is_leap_year(year) {
        1
    } else {
        0
    };
    if month <= 1 {
        0
    } else if month == 2 {
        31
    } else if month == 3 {
        59 + leap_day
    } else if month == 4 {
        90 + leap_day
    } else if month == 5 {
        120 + leap_day
    } else if month == 6 {
        151 + leap_day
    } else if month == 7 {
        181 + leap_day
    } else if month == 8 {
        212 + leap_day
    } else if month == 9 {
        243 + leap_day
    } else if month == 10 {
        273 + leap_day
    } else if month == 11 {
        304 + leap_day
    } else if month == 12 {
        334 + leap_day
    } else {
        365 + leap_day
    }
}

/// The Julian day of a date of the Gregorian calendar.
pub open spec fn julian_day_of(year: int, month: int, day: int) -> int {
    let past = year - 1;
    365 * past + past / 4 - past / 100 + past / 400 + days_before_month(year, month) + day
        + 1_721_425
}

/// A moment in universal time.
#[derive(Debug)]
pub struct UtcTime {
    pub julian_day: i32,
    pub year: i32,
    pub month: u8,
    pub day: u8,
    pub hour: u8,
    pub minute: u8,
    pub second: u8,
}

impl UtcTime {
    /// Whether every part of the moment is in its range.
    pub open spec fn in_range(self) -> bool {
        &&& in_calendar(self.julian_day as int)
        &&& -9999 <= self.year <= 9999
        &&& 1 <= self.month <= 12
        &&& 1 <= self.day <= 31
        &&& self.hour < 24
        &&& self.minute < 60
        &&& self.second < 60
    }

    /// Whether the moment's date is one of the calendar's, and its Julian day is
    /// that of its date.
    pub open spec fn is_dated(self) -> bool {
        &&& self.day <= days_before_month(self.year as int, self.month + 1) - days_before_month(
            self.year as int,
            self.month as int,
        )
        &&& self.julian_day == julian_day_of(
            self.year as int,
            self.month as int,
            self.day as int,
        )
    }
}

/// `time::OffsetDateTime::now_utc`: what the machine's clock shows, taken apart.
/// Of the moment itself nothing can be said but that its parts are in their
/// ranges and that they make up one date. The call does not return where the
/// clock stands outside the calendar.
#[verifier::external_body]
pub(crate) fn now_utc() -> (now: UtcTime)
    ensures
        now.in_range(),
        now.is_dated(),
{
    let now = OffsetDateTime::now_utc();
    UtcTime {
        julian_day: now.to_julian_day(),
        year: now.year(),
        month: u8::from(now.month()),
        day: now.day(),
        hour: now.hour(),
        minute: now.minute(),
        second: now.second(),
    }
}

/// Whether a moment is one that the machine's clock may have shown when it was asked.
pub closed spec fn shown_by_clock(moment: UtcTime) -> bool {
    call_ensures(now_utc, (), moment)
}

/// Asks the machine's clock.
pub(crate) fn read_clock() -> (now: UtcTime)
    ensures
        shown_by_clock(now),
        now.in_range(),
        now.is_dated(),
{
    let clock = now_utc;
    clock()
}

/// Subtraction of a `time::Duration` of whole days from a `time::Date`: the day
/// that lies so many days before. It panics where there is no such day in the
/// calendar, so that is left out.
#[verifier::external_body]
pub(crate) fn days_before(julian_day: i32, days: i64) -> (before: i32)
    requires
        in_calendar(julian_day as int),
        0 <= days,
        in_calendar(julian_day - days),
    ensures
        before == julian_day - days,
{
    let date = Date::from_julian_day(julian_day).unwrap();
    (date - Duration::days(days)).to_julian_day()
}

/// The days of the calendar are those of the years from -9999 to 9999.
pub proof fn law_calendar_spans_its_years(year: int, month: int, day: int)
    requires
        -9999 <= year <= 9999,
        1 <= month <= 12,
        1 <= day <= days_before_month(year, month + 1) - days_before_month(year, month),
    ensures
        in_calendar(julian_day_of(year, month, day)),
        julian_day_of(-9999, 1, 1) == FIRST_DAY,
        julian_day_of(9999, 12, 31) == LAST_DAY,
{
}

/// The days of the calendar are counted without a gap: from one day of a month to the
/// next, from the last of a month to the first of the next, and from the last of a year
/// to the first of the next. Months are as long as they are, and the second one is a day
/// longer in every fourth year, but of full centuries only in every fourth.
pub proof fn law_days_follow_each_other(year: int, month: int, day: int)
    requires
        1 <= month <= 12,
    ensures
        ({
            let leap = year % 4 == 0 && (year % 100 != 0 || year % 400 == 0);
            let length: int = if month == 2 {
                if leap {
                    29
                } else {
                    28
                }
            } else if month == 4 || month == 6 || month == 9 || month == 11 {
                30
            } else {
                31
            };
            &&& days_before_month(year, month + 1) - days_before_month(year, month) == length
            &&& julian_day_of(year, month, day + 1) == julian_day_of(year, month, day) + 1
            &&& month < 12 ==> julian_day_of(year, month + 1, 1) == julian_day_of(
                year,
                month,
                length,
            ) + 1
            &&& julian_day_of(year + 1, 1, 1) == julian_day_of(year, 12, 31) + 1
        }),
        julian_day_of(2000, 1, 1) == 2_451_545,
{
}

/// What the clock has shown came of asking it, and is a moment of the calendar.
pub(crate) proof fn law_clock_shows_what_it_gave(moment: UtcTime)
    requires
        shown_by_clock(moment),
    ensures
        call_ensures(now_utc, (), moment),
        FIRST_DAY <= moment.julian_day <= LAST_DAY,
        moment.julian_day == julian_day_of(
            moment.year as int,
            moment.month as int,
            moment.day as int,
        ),
{
}

} // verus!
