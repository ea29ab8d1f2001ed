//! Civil dates, Julian days and the rules that connect them.
//!
//! A Julian day is held as a signed count of microseconds since the origin of
//! the Julian day scale, so that `2_451_545 * MICROS_PER_DAY` is the instant
//! J2000.0. A decimal day (day of the month together with the time of day) is
//! held in the same unit: `MICROS_PER_DAY` is the civil midnight that opens the
//! first day of a month.

use crate::calendar_laws::civil_from_day_number_inverts;
pub use crate::delta_t::delta_t;
use crate::floor::floor_div;
use vstd::prelude::*;

verus! {

/// Microseconds in one day.
pub const MICROS_PER_DAY: i64 = 86_400_000_000;

/// Microseconds in one hour.
pub const MICROS_PER_HOUR: i64 = 3_600_000_000;

/// Microseconds in one minute.
pub const MICROS_PER_MINUTE: i64 = 60_000_000;

/// Microseconds in one second.
pub const MICROS_PER_SECOND: i64 = 1_000_000;

/// The first day number that is read in the Gregorian calendar when a Julian
/// day is turned back into a date: 15 October 1582.
pub const GREGORIAN_REFORM: i64 = 2_299_161;

/// The Julian day of the epoch J2000.0, 1 January 2000 at noon, in
/// microseconds.
pub const J2000: i64 = 211_813_488_000_000_000;

/// Microseconds in a Julian century of 36525 days.
pub const MICROS_PER_CENTURY: i64 = 3_155_760_000_000_000;

/// Microseconds in a Julian millennium of 365250 days.
pub const MICROS_PER_MILLENNIUM: i64 = 31_557_600_000_000_000;

/// The two civil calendars a date can be written in.
#[derive(Clone, Copy, Debug, PartialEq, Eq, Structural)]
pub enum CalType {
    /// Gregorian calendar
    Gregorian,
    /// Julian calendar
    Julian,
}

/// A month of the Gregorian and Julian calendars.
#[derive(Clone, Copy, Debug, PartialEq, Eq, Structural)]
pub enum Month {
    /// January
    Jan,
    /// February
    Feb,
    /// March
    Mar,
    /// April
    Apr,
    /// May
    May,
    /// June
    June,
    /// July
    July,
    /// August
    Aug,
    /// September
    Sept,
    /// October
    Oct,
    /// November
    Nov,
    /// December
    Dec,
}

impl Month {
    /// The month's place in the year, January being 1.
    pub open spec fn ordinal(self) -> int {
        match self {
            Month::Jan => 1,
            Month::Feb => 2,
            Month::Mar => 3,
            Month::Apr => 4,
            Month::May => 5,
            Month::June => 6,
            Month::July => 7,
            Month::Aug => 8,
            Month::Sept => 9,
            Month::Oct => 10,
            Month::Nov => 11,
            Month::Dec => 12,
        }
    }

    /// The month's place in the year, January being 1.
    pub fn number(&self) -> (n: u8)
        ensures
            n == self.ordinal(),
    {
        match self {
            Month::Jan => 1,
            Month::Feb => 2,
            Month::Mar => 3,
            Month::Apr => 4,
            Month::May => 5,
            Month::June => 6,
            Month::July => 7,
            Month::Aug => 8,
            Month::Sept => 9,
            Month::Oct => 10,
            Month::Nov => 11,
            Month::Dec => 12,
        }
    }

    /// The month with the given place in the year, if there is one.
    pub fn from_number(n: u8) -> (month: Option<Month>)
        ensures
            1 <= n <= 12 ==> month is Some && month->Some_0.ordinal() == n,
            !(1 <= n <= 12) ==> month is None,
    {
        match n {
            1 => Some(Month::Jan),
            2 => Some(Month::Feb),
            3 => Some(Month::Mar),
            4 => Some(Month::Apr),
            5 => Some(Month::May),
            6 => Some(Month::June),
            7 => Some(Month::July),
            8 => Some(Month::Aug),
            9 => Some(Month::Sept),
            10 => Some(Month::Oct),
            11 => Some(Month::Nov),
            12 => Some(Month::Dec),
            _ => None,
        }
    }
}

/// A day of the week.
#[derive(Clone, Copy, Debug, PartialEq, Eq, Structural)]
pub enum Weekday {
    /// Sunday
    Sunday,
    /// Monday
    Monday,
    /// Tuesday
    Tuesday,
    /// Wednesday
    Wednesday,
    /// Thursday
    Thursday,
    /// Friday
    Friday,
    /// Saturday
    Saturday,
}

impl Weekday {
    /// The day's place in the week, Sunday being 0.
    pub open spec fn index(self) -> int {
        match self {
            Weekday::Sunday => 0,
            Weekday::Monday => 1,
            Weekday::Tuesday => 2,
            Weekday::Wednesday => 3,
            Weekday::Thursday => 4,
            Weekday::Friday => 5,
            Weekday::Saturday => 6,
        }
    }
}

/// A date: year, month, decimal day and the calendar it is written in.
#[derive(Clone, Copy, Debug, PartialEq, Eq, Structural)]
pub struct Date {
    /// Year, counted astronomically (the year before year 1 is year 0)
    pub year: i16,
    /// Month
    pub month: Month,
    /// Decimal day, in microseconds: the day of the month times
    /// `MICROS_PER_DAY`, plus the time elapsed since that day's midnight
    pub decimal_day: i64,
    /// Calendar type
    pub cal_type: CalType,
}

/// A day of a month with the time of day and the time zone it is given in.
#[derive(Clone, Copy, Debug, PartialEq, Eq, Structural)]
pub struct DayOfMonth {
    /// Day of month
    pub day: u8,
    /// Hour of day
    pub hr: u8,
    /// Minute of hour
    pub min: u8,
    /// Second of minute, in microseconds
    pub sec: u32,
    /// Time zone, in seconds east of Greenwich
    ///
    /// Example: Pacific Time Zone is `-8 * 3600`
    pub time_zone: i32,
}

/// Why a Julian day could not be turned into a date.
#[derive(Clone, Copy, Debug, PartialEq, Eq, Structural)]
pub enum JulianDayError {
    /// The Julian day was negative.
    Negative,
}

/// Whether `year` has a leap day in the given calendar.
pub open spec fn spec_is_leap_year(year: int, cal_type: CalType) -> bool {
    match cal_type {
        CalType::Julian => year % 4 == 0,
        CalType::Gregorian => year % 4 == 0 && (year % 100 != 0 || year % 400 == 0),
    }
}

/// The number of days in a month of the given year.
pub open spec fn spec_days_in_month(year: int, month: int, cal_type: CalType) -> int {
    if month == 2 {
        if spec_is_leap_year(year, cal_type) {
            29
        } else {
            28
        }
    } else if month == 4 || month == 6 || month == 9 || month == 11 {
        30
    } else {
        31
    }
}

/// The number of days of the year that lie before the first of the month.
pub open spec fn spec_days_before_month(year: int, month: int, cal_type: CalType) -> int
    decreases month,
{
    if month <= 1 {
        0
    } else {
        spec_days_before_month(year, month - 1, cal_type) + spec_days_in_month(
            year,
            month - 1,
            cal_type,
        )
    }
}

/// Whether the day exists in the calendar: a month from 1 to 12 and a day from
/// 1 to the length of that month.
pub open spec fn spec_valid_day(year: int, month: int, day: int, cal_type: CalType) -> bool {
    1 <= month <= 12 && 1 <= day <= spec_days_in_month(year, month, cal_type)
}

/// The days that separate the civil calendar from the Julian one in the
/// century of the year `y`, which begins in March: `2 - a + floor(a / 4)`
/// with `a = floor(y / 100)`. Zero in the Julian calendar.
pub open spec fn spec_calendar_shift(y: int, cal_type: CalType) -> int {
    match cal_type {
        CalType::Gregorian => 2 - y / 100 + (y / 100) / 4,
        CalType::Julian => 0,
    }
}

/// The Julian day number of the day with number `day` in the given month:
/// the Julian day at the noon of that day. January and February count as
/// months 13 and 14 of the year before. The terms are
/// `floor(365.25 (y + 4716))`, `floor(30.6001 (m + 1))`, the day, the
/// calendar's shift, and `-1524`.
pub open spec fn spec_julian_day_number(year: int, month: int, day: int, cal_type: CalType) -> int {
    let y = if month <= 2 {
        year - 1
    } else {
        year
    };
    let m = if month <= 2 {
        month + 12
    } else {
        month
    };
    (1461 * (y + 4716)) / 4 + (306001 * (m + 1)) / 10000 + day + spec_calendar_shift(y, cal_type)
        - 1524
}

/// The Julian day, in microseconds, of a decimal day in a month. A decimal
/// day of zero stands half a day before the noon that
/// `spec_julian_day_number` gives for day 0.
pub open spec fn spec_julian_day_of(
    year: int,
    month: int,
    decimal_day: int,
    cal_type: CalType,
) -> int {
    spec_julian_day_number(year, month, 0, cal_type) * MICROS_PER_DAY + decimal_day
        - MICROS_PER_DAY / 2
}

/// The Julian day of a date, in microseconds.
pub open spec fn spec_julian_day(date: Date) -> int {
    spec_julian_day_of(
        date.year as int,
        date.month.ordinal(),
        date.decimal_day as int,
        date.cal_type,
    )
}

/// Whether the date exists in its calendar: its decimal day lies between the
/// midnight that opens the first day of the month and the one that closes
/// the last.
pub open spec fn spec_valid_date(date: Date) -> bool {
    spec_valid_day(
        date.year as int,
        date.month.ordinal(),
        date.decimal_day as int / MICROS_PER_DAY as int,
        date.cal_type,
    )
}

/// The calendar in which a day number is read: Julian before
/// `GREGORIAN_REFORM`, Gregorian from it on.
pub open spec fn spec_calendar_of(day_number: int) -> CalType {
    if day_number < GREGORIAN_REFORM {
        CalType::Julian
    } else {
        CalType::Gregorian
    }
}

/// The year, month and day of the month of a Julian day number.
///
/// From `GREGORIAN_REFORM` on, the day number first loses the days that the
/// Gregorian calendar dropped: with `alpha = floor((z - 1867216.25) / 36524.25)`
/// it becomes `z + 1 + alpha - floor(alpha / 4)`. Then
/// `b = a + 1524`, `c = floor((b - 122.1) / 365.25)`, `d = floor(365.25 c)`,
/// `e = floor((b - d) / 30.6001)`, and the day is `b - d - floor(30.6001 e)`.
pub open spec fn spec_civil_from_day_number(z: int) -> (int, int, int) {
    let a = if z < GREGORIAN_REFORM {
        z
    } else {
        let alpha = (4 * z - 7468865) / 146097;
        z + 1 + alpha - alpha / 4
    };
    let b = a + 1524;
    let c = (20 * b - 2442) / 7305;
    let d = (1461 * c) / 4;
    let e = (10000 * (b - d)) / 306001;
    let day = b - d - (306001 * e) / 10000;
    let month = if e < 14 {
        e - 1
    } else {
        e - 13
    };
    let year = if month > 2 {
        c - 4716
    } else {
        c - 4715
    };
    (year, month, day)
}

/// The day number on which an instant falls: days begin at midnight, half a
/// day before the Julian day takes a whole value.
pub open spec fn spec_day_number_of(jd: int) -> int {
    (jd + MICROS_PER_DAY / 2) / (MICROS_PER_DAY as int)
}

/// The time elapsed since the midnight that opened the instant's day.
pub open spec fn spec_time_of_day(jd: int) -> int {
    (jd + MICROS_PER_DAY / 2) % (MICROS_PER_DAY as int)
}

/// The year, month and decimal day of a Julian day given in microseconds.
pub open spec fn spec_date_from_julian_day(jd: int) -> (int, int, int) {
    let (year, month, day) = spec_civil_from_day_number(spec_day_number_of(jd));
    (year, month, day * MICROS_PER_DAY + spec_time_of_day(jd))
}

/// The weekday of a date, Sunday being 0. The day of the month is read
/// without its time of day, and in the Gregorian calendar whatever the date's
/// own calendar is.
pub open spec fn spec_weekday_index(date: Date) -> int {
    (spec_julian_day_number(
        date.year as int,
        date.month.ordinal(),
        date.decimal_day / MICROS_PER_DAY,
        CalType::Gregorian,
    ) + 1) % 7
}

/// The decimal day of a day of the month: the day, its time of day, and the
/// time zone taken off, all in microseconds.
pub open spec fn spec_decimal_day(day: DayOfMonth) -> int {
    day.day * MICROS_PER_DAY + day.hr * MICROS_PER_HOUR + day.min * MICROS_PER_MINUTE + day.sec
        - day.time_zone * MICROS_PER_SECOND
}

/// A year with a fraction of it: the value `year + elapsed / length`.
#[derive(Clone, Copy, Debug, PartialEq, Eq, Structural)]
pub struct DecimalYear {
    /// The year that the fraction is added to
    pub year: i16,
    /// Time counted from the start of the year, in microseconds
    pub elapsed: i64,
    /// The length of the year, in microseconds
    pub length: i64,
}

/// A time counted in a longer unit: the value `elapsed / unit`.
#[derive(Clone, Copy, Debug, PartialEq, Eq, Structural)]
pub struct Elapsed {
    /// The time, in microseconds; negative before the instant it is counted
    /// from
    pub elapsed: i128,
    /// The length of the unit, in microseconds
    pub unit: i64,
}

/// The number of days in the year of a date: 366 in a leap year of the
/// date's calendar, 365 in every other year, whatever the month.
pub open spec fn spec_year_length(date: Date) -> int {
    if spec_is_leap_year(date.year as int, date.cal_type) {
        366
    } else {
        365
    }
}

/// The time that a date's decimal year counts from the start of the year:
/// the days of the months before the date's own, and the decimal day.
pub open spec fn spec_year_elapsed(date: Date) -> int {
    spec_days_before_month(date.year as int, date.month.ordinal(), date.cal_type)
        * MICROS_PER_DAY + date.decimal_day
}

/// Checks if a year is a leap year.
pub fn is_leap_year(year: i16, cal_type: &CalType) -> (leap: bool)
    ensures
        leap == spec_is_leap_year(year as int, *cal_type),
{
    match cal_type {
        CalType::Julian => year % 4 == 0,
        CalType::Gregorian => {
            if year % 100 == 0 {
                year % 400 == 0
            } else {
                year % 4 == 0
            }
        },
    }
}

/// Computes the Julian day number of a day of a month.
fn julian_day_number(year: i16, month: &Month, day: i64, cal_type: &CalType) -> (n: i64)
    requires
        -200_000_000 <= day <= 200_000_000,
    ensures
        n == spec_julian_day_number(year as int, month.ordinal(), day as int, *cal_type),
        -220_000_000 <= n <= 220_000_000,
{
    let number: i64 = month.number() as i64;
    let y: i64 = if number <= 2 {
        year as i64 - 1
    } else {
        year as i64
    };
    let m: i64 = if number <= 2 {
        number + 12
    } else {
        number
    };
    let shift: i64 = match cal_type {
        CalType::Gregorian => {
            let a: i64 = floor_div(y as i128, 100) as i64;
            2 - a + floor_div(a as i128, 4) as i64
        },
        CalType::Julian => 0,
    };
    floor_div(1461 * (y as i128 + 4716), 4) as i64 + (306001 * (m + 1)) / 10000 + day + shift - 1524
}

/// Computes the Julian day of a date, in microseconds.
///
/// The date's calendar decides whether the Gregorian shift is applied. The
/// decimal day is not held to the length of the month: each microsecond more
/// gives a Julian day one microsecond later.
pub fn julian_day(date: &Date) -> (jd: i64)
    requires
        i64::MIN <= spec_julian_day(*date) <= i64::MAX,
    ensures
        jd == spec_julian_day(*date),
{
    let start: i64 = julian_day_number(date.year, &date.month, 0, &date.cal_type);
    let jd: i128 = start as i128 * MICROS_PER_DAY as i128 + date.decimal_day as i128
        - (MICROS_PER_DAY / 2) as i128;
    jd as i64
}

/// Computes a year, month and decimal day equivalent to a given Julian day.
///
/// The Julian day and the decimal day are in microseconds. Days before
/// `GREGORIAN_REFORM` are read in the Julian calendar, later ones in the
/// Gregorian calendar. A negative Julian day is refused; every other one has
/// a date, with a month from 1 to 12 and a decimal day inside that month.
pub fn date_from_julian_day(jd: i64) -> (date: Result<(i32, u8, i64), JulianDayError>)
    ensures
        jd < 0 <==> date is Err,
        jd < 0 ==> date == Err::<(i32, u8, i64), JulianDayError>(JulianDayError::Negative),
        jd >= 0 ==> date is Ok && ({
            let (year, month, decimal_day) = date->Ok_0;
            &&& (year as int, month as int, decimal_day as int) == spec_date_from_julian_day(
                jd as int,
            )
            &&& 1 <= month <= 12
            &&& MICROS_PER_DAY <= decimal_day < 32 * MICROS_PER_DAY
        }),
{
    if jd < 0 {
        return Err(JulianDayError::Negative);
    }
    let half: i64 = MICROS_PER_DAY / 2;
    let whole: i64 = jd / MICROS_PER_DAY;
    let rest: i64 = jd % MICROS_PER_DAY;
    let z: i64 = if rest >= half {
        whole + 1
    } else {
        whole
    };
    let time: i64 = if rest >= half {
        rest - half
    } else {
        rest + half
    };
    assert(z == spec_day_number_of(jd as int) && time == spec_time_of_day(jd as int));
    let a: i64 = if z < GREGORIAN_REFORM {
        z
    } else {
        let alpha: i64 = (4 * z - 7468865) / 146097;
        z + 1 + alpha - alpha / 4
    };
    let b: i64 = a + 1524;
    let c: i64 = (20 * b - 2442) / 7305;
    let d: i64 = (1461 * c) / 4;
    let e: i64 = (10000 * (b - d)) / 306001;
    proof {
        civil_from_day_number_inverts(z as int);
    }
    let day: i64 = b - d - (306001 * e) / 10000;
    let month: i64 = if e < 14 {
        e - 1
    } else {
        e - 13
    };
    let year: i64 = if month > 2 {
        c - 4716
    } else {
        c - 4715
    };
    Ok((year as i32, month as u8, day * MICROS_PER_DAY + time))
}

/// The place in the week of the day with the given Julian day number, Sunday
/// being 0.
fn weekday_index(number: i64) -> (index: i64)
    requires
        -220_000_000 <= number <= 220_000_000,
    ensures
        index == (number + 1) % 7,
{
    let rest: i64 = (number + 1) % 7;
    if rest < 0 {
        rest + 7
    } else {
        rest
    }
}

/// Computes the weekday of a date.
///
/// The date is read at the midnight that opens its day, and in the Gregorian
/// calendar whatever calendar it names.
pub fn weekday_from_date(date: &Date) -> (weekday: Weekday)
    ensures
        weekday.index() == spec_weekday_index(*date),
{
    let whole: i128 = floor_div(date.decimal_day as i128, MICROS_PER_DAY as i128);
    assert(-200_000_000 <= whole <= 200_000_000);
    let day: i64 = whole as i64;
    let number: i64 = julian_day_number(date.year, &date.month, day, &CalType::Gregorian);
    let index: i64 = weekday_index(number);
    if index == 0 {
        Weekday::Sunday
    } else if index == 1 {
        Weekday::Monday
    } else if index == 2 {
        Weekday::Tuesday
    } else if index == 3 {
        Weekday::Wednesday
    } else if index == 4 {
        Weekday::Thursday
    } else if index == 5 {
        Weekday::Friday
    } else {
        Weekday::Saturday
    }
}

/// Computes the decimal day of a day of a month, in microseconds: the day,
/// the hours, minutes and seconds of its time of day, less the time zone.
pub fn decimal_day(day: &DayOfMonth) -> (decimal: i64)
    ensures
        decimal == spec_decimal_day(*day),
{
    day.day as i64 * MICROS_PER_DAY + day.hr as i64 * MICROS_PER_HOUR + day.min as i64
        * MICROS_PER_MINUTE + day.sec as i64 - day.time_zone as i64 * MICROS_PER_SECOND
}

/// Computes the decimal year of a date: the year, and the fraction of it
/// that the date has reached.
///
/// The fraction counts the days of the months before the date's own, with the
/// leap day in February's count in a leap year, and the decimal day. It
/// divides by the days in the year: 366 in a leap year, 365 otherwise. In
/// January it is the decimal day alone over the days in the year.
pub fn decimal_year(date: &Date) -> (fraction: DecimalYear)
    requires
        i64::MIN <= spec_year_elapsed(*date) <= i64::MAX,
    ensures
        fraction.year == date.year,
        fraction.elapsed == spec_year_elapsed(*date),
        fraction.length == spec_year_length(*date) * MICROS_PER_DAY,
{
    let mut y: i64 = 0;
    let leap: bool = is_leap_year(date.year, &date.cal_type);
    let days: i64 = if leap {
        366
    } else {
        365
    };
    let month: u8 = date.month.number();
    proof {
        reveal_with_fuel(spec_days_before_month, 13);
    }
    if month > 1 {
        y += 31;
    }
    if month > 2 {
        y += 28;
        if leap {
            y += 1;
        }
    }
    if month > 3 {
        y += 31;
    }
    if month > 4 {
        y += 30;
    }
    if month > 5 {
        y += 31;
    }
    if month > 6 {
        y += 30;
    }
    if month > 7 {
        y += 31;
    }
    if month > 8 {
        y += 31;
    }
    if month > 9 {
        y += 30;
    }
    if month > 10 {
        y += 31;
    }
    if month > 11 {
        y += 30;
    }
    assert(y == spec_days_before_month(date.year as int, month as int, date.cal_type));
    let elapsed: i128 = y as i128 * MICROS_PER_DAY as i128 + date.decimal_day as i128;
    DecimalYear { year: date.year, elapsed: elapsed as i64, length: days * MICROS_PER_DAY }
}

/// Computes Julian century for a Julian day: the time since J2000.0 over
/// the length of a century of 36525 days.
pub fn julian_century(jd: i64) -> (century: Elapsed)
    ensures
        century.elapsed == jd - 2_451_545 * MICROS_PER_DAY,
        century.unit == 36_525 * MICROS_PER_DAY,
{
    Elapsed { elapsed: jd as i128 - J2000 as i128, unit: MICROS_PER_CENTURY }
}

/// Computes Julian millennium for a Julian day: the time since J2000.0 over
/// the length of a millennium of 365250 days.
pub fn julian_millennium(jd: i64) -> (millennium: Elapsed)
    ensures
        millennium.elapsed == jd - 2_451_545 * MICROS_PER_DAY,
        millennium.unit == 365_250 * MICROS_PER_DAY,
{
    Elapsed { elapsed: jd as i128 - J2000 as i128, unit: MICROS_PER_MILLENNIUM }
}

} // verus!
