//! What holds between dates and Julian days, whatever the date.

use crate::time::spec_calendar_of;
use crate::time::spec_calendar_shift;
use crate::time::spec_civil_from_day_number;
use crate::time::spec_date_from_julian_day;
use crate::time::spec_day_number_of;
use crate::time::spec_days_before_month;
use crate::time::spec_is_leap_year;
use crate::time::spec_julian_day;
use crate::time::spec_julian_day_number;
use crate::time::spec_julian_day_of;
use crate::time::spec_time_of_day;
use crate::time::spec_valid_date;
use crate::time::spec_valid_day;
use crate::time::spec_year_elapsed;
use crate::time::spec_year_length;
use crate::time::CalType;
use crate::time::Date;
use crate::time::GREGORIAN_REFORM;
use crate::time::MICROS_PER_DAY;
use vstd::prelude::*;

verus! {

/// The count of days that the Julian calendar arithmetic works on: the day
/// number itself before the reform, and from the reform on the day number
/// with the dropped days put back.
pub open spec fn spec_julian_count(z: int) -> int {
    if z < GREGORIAN_REFORM {
        z
    } else {
        let alpha = (4 * z - 7468865) / 146097;
        z + 1 + alpha - alpha / 4
    }
}

/// The count that the Julian calendar arithmetic gives to a day of a year
/// that begins in March, with `month` from 3 to 14.
pub open spec fn spec_march_count(y: int, m: int, day: int) -> int {
    (1461 * (y + 4716)) / 4 + (306001 * (m + 1)) / 10000 + day - 1524
}

/// The length of a month of a year that begins in March. February, month 14,
/// has its leap day when the year that follows `y` is a leap year.
pub open spec fn spec_march_month_length(y: int, m: int, cal_type: CalType) -> int {
    if m == 14 {
        if spec_is_leap_year(y + 1, cal_type) {
            29
        } else {
            28
        }
    } else if m == 4 || m == 6 || m == 9 || m == 11 {
        30
    } else {
        31
    }
}

/// From the reform on, the count of a day number lies in the century
/// `alpha + 4`, and differs from the day number by that century's shift.
proof fn lemma_gregorian_century(z: int)
    requires
        z >= GREGORIAN_REFORM,
    ensures
        ({
            let alpha = (4 * z - 7468865) / 146097;
            let a = z + 1 + alpha - alpha / 4;
            let century = alpha + 4;
            &&& alpha >= 11
            &&& a == z - (2 - century + century / 4)
            &&& 36525 * century + 1721118 <= a
            &&& a <= 36525 * (century + 1) + 1721116 + (if (century + 1) % 4 == 0 {
                1int
            } else {
                0int
            })
        }),
{
    let alpha = (4 * z - 7468865) / 146097;
    let q = alpha / 4;
    let r = alpha % 4;
    assert(alpha == 4 * q + r);
    assert(146097 * alpha <= 4 * z - 7468865 <= 146097 * alpha + 146096);
    assert((alpha + 4) / 4 == q + 1);
    assert((alpha + 5) % 4 == 0 <==> r == 3);
}

/// The values of `floor(30.6001 (m + 1))` for the months from March to
/// February.
proof fn lemma_month_term(m: int)
    requires
        3 <= m <= 14,
    ensures
        (306001 * (m + 1)) / 10000 == if m == 3 {
            122int
        } else if m == 4 {
            153
        } else if m == 5 {
            183
        } else if m == 6 {
            214
        } else if m == 7 {
            244
        } else if m == 8 {
            275
        } else if m == 9 {
            306
        } else if m == 10 {
            336
        } else if m == 11 {
            367
        } else if m == 12 {
            397
        } else if m == 13 {
            428
        } else {
            459
        },
{
}

/// The Julian calendar arithmetic finds the year, the month and the day of
/// every count, and the day it finds exists in the Julian calendar.
proof fn lemma_count_splits(a: int)
    ensures
        ({
            let b = a + 1524;
            let c = (20 * b - 2442) / 7305;
            let d = (1461 * c) / 4;
            let e = (10000 * (b - d)) / 306001;
            let day = b - d - (306001 * e) / 10000;
            &&& 4 <= e <= 15
            &&& 1 <= day <= spec_march_month_length(c - 4716, e - 1, CalType::Julian)
            &&& spec_march_count(c - 4716, e - 1, day) == a
        }),
{
    let b = a + 1524;
    let c = (20 * b - 2442) / 7305;
    let d = (1461 * c) / 4;
    let e = (10000 * (b - d)) / 306001;
    let day = b - d - (306001 * e) / 10000;
    assert(7305 * c <= 20 * b - 2442 < 7305 * c + 7305);
    assert(4 * d == 1461 * c - c % 4);
    assert(20 * (b - d) == 20 * b - 7305 * c + 5 * (c % 4));
    assert(123 <= b - d <= 488);
    assert(b - d == 488 ==> c % 4 == 3);
    assert(4 <= e <= 15);
    lemma_month_term(e - 1);
    assert((c - 4715) % 4 == 0 <==> c % 4 == 3);
}

/// A day that exists in its calendar has a count inside its century.
proof fn lemma_count_in_century(y: int, m: int, day: int, cal_type: CalType)
    requires
        3 <= m <= 14,
        1 <= day <= spec_march_month_length(y, m, cal_type),
    ensures
        ({
            let century = y / 100;
            let a = spec_march_count(y, m, day);
            &&& 36525 * century + 1721118 <= a
            &&& a <= 36525 * (century + 1) + 1721117
            &&& cal_type == CalType::Gregorian ==> a <= 36525 * (century + 1) + 1721116 + (if (
            century + 1) % 4 == 0 {
                1int
            } else {
                0int
            })
        }),
{
    let century = y / 100;
    let r = y % 100;
    assert(y == 100 * century + r);
    lemma_month_term(m);
    assert((1461 * (y + 4716)) / 4 == 36525 * century + (1461 * (r + 4716)) / 4);
    assert(1722519 <= (1461 * (r + 4716)) / 4 <= 1758678);
    if r == 99 && m == 14 && day == 29 {
        assert(y + 1 == 100 * (century + 1));
        assert((y + 1) % 100 == 0);
        if cal_type == CalType::Gregorian {
            assert((y + 1) % 400 == 0);
            assert((century + 1) % 4 == 0);
        }
    }
    if r == 99 {
        assert((1461 * (r + 4716)) / 4 == 1758678);
    } else {
        assert((1461 * (r + 4716)) / 4 <= 1758313);
    }
}

/// The Julian calendar arithmetic recovers the year, the month and the day
/// from the count of a day that exists.
proof fn lemma_count_recovered(y: int, m: int, day: int)
    requires
        3 <= m <= 14,
        1 <= day <= spec_march_month_length(y, m, CalType::Julian),
    ensures
        ({
            let b = spec_march_count(y, m, day) + 1524;
            let c = (20 * b - 2442) / 7305;
            let d = (1461 * c) / 4;
            let e = (10000 * (b - d)) / 306001;
            &&& c == y + 4716
            &&& e == m + 1
            &&& b - d - (306001 * e) / 10000 == day
        }),
{
    let n = y + 4716;
    let b = spec_march_count(y, m, day) + 1524;
    lemma_month_term(m);
    let t = (306001 * (m + 1)) / 10000;
    assert(4 * ((1461 * n) / 4) == 1461 * n - n % 4);
    assert(20 * b == 7305 * n - 5 * (n % 4) + 20 * (t + day));
    assert((y + 1) % 4 == 0 <==> n % 4 == 3);
    assert(7305 * n <= 20 * b - 2442 < 7305 * n + 7305);
    let c = (20 * b - 2442) / 7305;
    assert(c == n);
    let d = (1461 * c) / 4;
    assert(b - d == t + day);
}

/// Turning a day number into a year, a month and a day gives a day that
/// exists in the calendar in which the day number is read (Julian before
/// the reform, Gregorian from it on), and the Julian day number of that
/// day, in that calendar, is the day number that was given.
pub proof fn civil_from_day_number_inverts(z: int)
    ensures
        ({
            let (year, month, day) = spec_civil_from_day_number(z);
            &&& spec_valid_day(year, month, day, spec_calendar_of(z))
            &&& spec_julian_day_number(year, month, day, spec_calendar_of(z)) == z
        }),
{
    let a = spec_julian_count(z);
    let b = a + 1524;
    let c = (20 * b - 2442) / 7305;
    let d = (1461 * c) / 4;
    let e = (10000 * (b - d)) / 306001;
    let day = b - d - (306001 * e) / 10000;
    let y = c - 4716;
    let m = e - 1;
    lemma_count_splits(a);
    if z >= GREGORIAN_REFORM {
        lemma_gregorian_century(z);
        lemma_count_in_century(y, m, day, CalType::Julian);
        let century = (4 * z - 7468865) / 146097 + 4;
        assert(y / 100 == century);
        if m == 14 && day == 29 && !spec_is_leap_year(y + 1, CalType::Gregorian) {
            assert(y == 100 * century + 99);
            lemma_month_term(m);
            assert((1461 * (y + 4716)) / 4 == 36525 * century + 1758678);
            assert((century + 1) % 4 != 0);
            assert(false);
        }
    }
}

/// The Julian day number of a day that exists in its calendar, turned back
/// into a year, a month and a day, gives that day again, provided that the
/// day number is read in the calendar the day was written in: a Julian date
/// before the reform, a Gregorian date from it on.
pub proof fn day_number_round_trip(year: int, month: int, day: int, cal_type: CalType)
    requires
        spec_valid_day(year, month, day, cal_type),
        cal_type == spec_calendar_of(spec_julian_day_number(year, month, day, cal_type)),
    ensures
        spec_civil_from_day_number(spec_julian_day_number(year, month, day, cal_type)) == (
            year,
            month,
            day,
        ),
{
    let y = if month <= 2 {
        year - 1
    } else {
        year
    };
    let m = if month <= 2 {
        month + 12
    } else {
        month
    };
    let z = spec_julian_day_number(year, month, day, cal_type);
    let count = spec_march_count(y, m, day);
    assert(z == count + spec_calendar_shift(y, cal_type));
    lemma_count_in_century(y, m, day, cal_type);
    if cal_type == CalType::Gregorian {
        let century = y / 100;
        assert(4 * (century / 4) == century - century % 4);
        assert(146097 * (century - 4) <= 4 * z - 7468865 <= 146097 * (century - 4) + 146096);
        let alpha = (4 * z - 7468865) / 146097;
        assert(alpha == century - 4);
        assert(alpha / 4 == century / 4 - 1);
    }
    assert(spec_julian_count(z) == count);
    assert(spec_is_leap_year(y + 1, cal_type) ==> spec_is_leap_year(y + 1, CalType::Julian));
    lemma_count_recovered(y, m, day);
}

/// A date that exists in its calendar, turned into a Julian day and back,
/// gives its year, its month and its decimal day again, to the microsecond,
/// provided that the Julian day is not negative and is read in the calendar
/// the date was written in: a Gregorian date from 15 October 1582 on, a
/// Julian date before.
pub proof fn julian_day_round_trip(date: Date)
    requires
        spec_valid_date(date),
        spec_julian_day(date) >= 0,
        date.cal_type == spec_calendar_of(spec_day_number_of(spec_julian_day(date))),
    ensures
        spec_date_from_julian_day(spec_julian_day(date)) == (
            date.year as int,
            date.month.ordinal(),
            date.decimal_day as int,
        ),
{
    let year = date.year as int;
    let month = date.month.ordinal();
    let day = date.decimal_day as int / MICROS_PER_DAY as int;
    let time = date.decimal_day as int % MICROS_PER_DAY as int;
    let jd = spec_julian_day(date);
    let z = spec_julian_day_number(year, month, day, date.cal_type);
    assert(z == spec_julian_day_number(year, month, 0, date.cal_type) + day);
    assert(jd + MICROS_PER_DAY / 2 == z * MICROS_PER_DAY + time);
    assert(spec_day_number_of(jd) == z);
    assert(spec_time_of_day(jd) == time);
    day_number_round_trip(year, month, day, date.cal_type);
}

/// Every Julian day that is not negative, turned into a year, a month and a
/// decimal day, gives a date that exists in the calendar in which the Julian
/// day is read, and the Julian day of that date, in that calendar, is the
/// one that was given. The calendar is the Julian one up to the last
/// microsecond of 4 October 1582 and the Gregorian one after it.
pub proof fn date_from_julian_day_inverts(jd: int)
    requires
        jd >= 0,
    ensures
        ({
            let (year, month, decimal_day) = spec_date_from_julian_day(jd);
            let cal_type = spec_calendar_of(spec_day_number_of(jd));
            &&& spec_valid_day(year, month, decimal_day / MICROS_PER_DAY as int, cal_type)
            &&& spec_julian_day_of(year, month, decimal_day, cal_type) == jd
        }),
{
    let z = spec_day_number_of(jd);
    let time = spec_time_of_day(jd);
    let (year, month, day) = spec_civil_from_day_number(z);
    let cal_type = spec_calendar_of(z);
    civil_from_day_number_inverts(z);
    let decimal_day = day * MICROS_PER_DAY + time;
    assert(decimal_day / MICROS_PER_DAY as int == day);
    assert(spec_julian_day_number(year, month, 0, cal_type) == z - day);
}

/// The time that the decimal year of a date counts is at least the first day
/// of the year and stays below the year's length and one day, for every date
/// that exists in its calendar: the decimal year lies above the year and
/// below the next year and one day of it.
pub proof fn decimal_year_within_the_year(date: Date)
    requires
        spec_valid_date(date),
    ensures
        MICROS_PER_DAY <= spec_year_elapsed(date) < (spec_year_length(date) + 1) * MICROS_PER_DAY,
{
    reveal_with_fuel(spec_days_before_month, 13);
}

/// Within one year of one calendar the decimal year follows the dates: of
/// two dates that exist, the one with the earlier month, or with the earlier
/// decimal day in the same month, has counted less time, and both divide by
/// the same length of the year.
pub proof fn decimal_year_follows_the_date(first: Date, second: Date)
    requires
        spec_valid_date(first),
        spec_valid_date(second),
        first.year == second.year,
        first.cal_type == second.cal_type,
        first.month.ordinal() < second.month.ordinal() || (first.month.ordinal()
            == second.month.ordinal() && first.decimal_day < second.decimal_day),
    ensures
        spec_year_elapsed(first) < spec_year_elapsed(second),
        spec_year_length(first) == spec_year_length(second),
{
    reveal_with_fuel(spec_days_before_month, 13);
}

} // verus!
