use apollo::time::date_from_julian_day;
use apollo::time::decimal_day;
use apollo::time::decimal_year;
use apollo::time::is_leap_year;
use apollo::time::julian_century;
use apollo::time::julian_day;
use apollo::time::julian_millennium;
use apollo::time::weekday_from_date;
use apollo::time::CalType;
use apollo::time::Date;
use apollo::time::DayOfMonth;
use apollo::time::DecimalYear;
use apollo::time::Elapsed;
use apollo::time::JulianDayError;
use apollo::time::Month;
use apollo::time::Weekday;
use apollo::time::GREGORIAN_REFORM;
use apollo::time::J2000;
use apollo::time::MICROS_PER_CENTURY;
use apollo::time::MICROS_PER_DAY;
use apollo::time::MICROS_PER_HOUR;
use apollo::time::MICROS_PER_MINUTE;
use apollo::time::MICROS_PER_SECOND;

const DAY: i64 = MICROS_PER_DAY;
const HALF: i64 = MICROS_PER_DAY / 2;

const MONTHS: [Month; 12] = [
    Month::Jan,
    Month::Feb,
    Month::Mar,
    Month::Apr,
    Month::May,
    Month::June,
    Month::July,
    Month::Aug,
    Month::Sept,
    Month::Oct,
    Month::Nov,
    Month::Dec,
];

fn date(year: i16, month: Month, decimal_day: i64, cal_type: CalType) -> Date {
    Date { year, month, decimal_day, cal_type }
}

/// A number of days written with two decimals, in microseconds.
fn days(whole: i64, hundredths: i64) -> i64 {
    whole * DAY + hundredths * (DAY / 100)
}

fn month_length(year: i16, month: Month, cal_type: CalType) -> i64 {
    match month {
        Month::Feb => {
            if is_leap_year(year, &cal_type) {
                29
            } else {
                28
            }
        }
        Month::Apr | Month::June | Month::Sept | Month::Nov => 30,
        _ => 31,
    }
}

#[test]
fn leap_years_follow_each_calendar() {
    assert!(is_leap_year(2000, &CalType::Gregorian));
    assert!(!is_leap_year(1900, &CalType::Gregorian));
    assert!(is_leap_year(1900, &CalType::Julian));
    assert!(is_leap_year(2024, &CalType::Gregorian));
    assert!(!is_leap_year(2023, &CalType::Gregorian));
    assert!(!is_leap_year(2023, &CalType::Julian));
    assert!(is_leap_year(-4, &CalType::Julian));
    assert!(is_leap_year(-400, &CalType::Gregorian));
    assert!(!is_leap_year(-100, &CalType::Gregorian));
    assert!(is_leap_year(0, &CalType::Gregorian));
    assert!(is_leap_year(i16::MIN, &CalType::Gregorian));
    assert!(!is_leap_year(i16::MAX, &CalType::Julian));
}

#[test]
fn months_are_numbered_from_one() {
    let mut n: u8 = 1;
    for month in MONTHS {
        assert_eq!(month.number(), n);
        assert_eq!(Month::from_number(n), Some(month));
        n += 1;
    }
    assert_eq!(Month::from_number(0), None);
    assert_eq!(Month::from_number(13), None);
    assert_eq!(Month::from_number(255), None);
}

#[test]
fn julian_day_of_j2000() {
    let noon = date(2000, Month::Jan, DAY + HALF, CalType::Gregorian);
    assert_eq!(julian_day(&noon), 2_451_545 * DAY);
}

#[test]
fn julian_day_of_known_gregorian_dates() {
    let g = CalType::Gregorian;
    assert_eq!(julian_day(&date(1957, Month::Oct, days(4, 81), g)), days(2_436_116, 31));
    assert_eq!(julian_day(&date(1999, Month::Jan, days(1, 0), g)), days(2_451_179, 50));
    assert_eq!(julian_day(&date(1987, Month::Jan, days(27, 0), g)), days(2_446_822, 50));
    assert_eq!(julian_day(&date(1987, Month::June, days(19, 50), g)), days(2_446_966, 0));
    assert_eq!(julian_day(&date(1988, Month::Jan, days(27, 0), g)), days(2_447_187, 50));
    assert_eq!(julian_day(&date(1988, Month::June, days(19, 50), g)), days(2_447_332, 0));
    assert_eq!(julian_day(&date(1900, Month::Jan, days(1, 0), g)), days(2_415_020, 50));
    assert_eq!(julian_day(&date(1600, Month::Jan, days(1, 0), g)), days(2_305_447, 50));
    assert_eq!(julian_day(&date(1600, Month::Dec, days(31, 0), g)), days(2_305_812, 50));
}

#[test]
fn julian_day_of_known_julian_dates() {
    let j = CalType::Julian;
    assert_eq!(julian_day(&date(333, Month::Jan, days(27, 50), j)), days(1_842_713, 0));
    assert_eq!(julian_day(&date(837, Month::Apr, days(10, 30), j)), days(2_026_871, 80));
    assert_eq!(julian_day(&date(-123, Month::Dec, days(31, 0), j)), days(1_676_496, 50));
    assert_eq!(julian_day(&date(-122, Month::Jan, days(1, 0), j)), days(1_676_497, 50));
    assert_eq!(julian_day(&date(-1000, Month::July, days(12, 50), j)), days(1_356_001, 0));
    assert_eq!(julian_day(&date(-1000, Month::Feb, days(29, 0), j)), days(1_355_866, 50));
    assert_eq!(julian_day(&date(-1001, Month::Aug, days(17, 90), j)), days(1_355_671, 40));
    assert_eq!(julian_day(&date(-4712, Month::Jan, days(1, 50), j)), 0);
}

#[test]
fn julian_day_takes_the_shift_from_the_named_calendar() {
    // the same day and month are ten days apart in the two calendars in 1582
    let julian = julian_day(&date(1582, Month::Oct, days(15, 0), CalType::Julian));
    let gregorian = julian_day(&date(1582, Month::Oct, days(15, 0), CalType::Gregorian));
    assert_eq!(julian - gregorian, 10 * DAY);
    // and thirteen in 2000
    let julian = julian_day(&date(2000, Month::Mar, days(1, 0), CalType::Julian));
    let gregorian = julian_day(&date(2000, Month::Mar, days(1, 0), CalType::Gregorian));
    assert_eq!(julian - gregorian, 13 * DAY);
}

#[test]
fn julian_day_follows_a_decimal_day_outside_the_month() {
    let g = CalType::Gregorian;
    let first = julian_day(&date(2001, Month::Feb, days(1, 0), g));
    assert_eq!(julian_day(&date(2001, Month::Feb, 0, g)), first - DAY);
    assert_eq!(julian_day(&date(2001, Month::Feb, days(40, 25), g)), first + days(39, 25));
    assert_eq!(julian_day(&date(2001, Month::Feb, -days(3, 0), g)), first - 4 * DAY);
    assert_eq!(julian_day(&date(2001, Month::Feb, DAY + 1, g)), first + 1);
}

#[test]
fn julian_day_at_the_ends_of_the_year_range() {
    let first = julian_day(&date(i16::MIN, Month::Jan, days(1, 0), CalType::Gregorian));
    let last = julian_day(&date(i16::MAX, Month::Dec, days(31, 0), CalType::Gregorian));
    assert_eq!(first, -10_247_206 * DAY - HALF);
    assert_eq!(last, 13_689_325 * DAY - HALF);
}

#[test]
fn the_reform_drops_ten_days() {
    let last_julian = julian_day(&date(1582, Month::Oct, days(4, 0), CalType::Julian));
    let first_gregorian = julian_day(&date(1582, Month::Oct, days(15, 0), CalType::Gregorian));
    assert_eq!(first_gregorian - last_julian, DAY);
    assert_eq!(first_gregorian, GREGORIAN_REFORM * DAY - HALF);
}

#[test]
fn dates_switch_calendar_at_the_reform() {
    let reform = GREGORIAN_REFORM * DAY - HALF;
    assert_eq!(date_from_julian_day(reform), Ok((1582, 10, days(15, 0))));
    assert_eq!(date_from_julian_day(reform - 1), Ok((1582, 10, days(5, 0) - 1)));
    assert_eq!(date_from_julian_day(reform - DAY), Ok((1582, 10, days(4, 0))));
    assert_eq!(date_from_julian_day(reform + DAY - 1), Ok((1582, 10, days(16, 0) - 1)));
    // noon of the first Gregorian day is the whole Julian day 2299161
    assert_eq!(date_from_julian_day(2_299_161 * DAY), Ok((1582, 10, days(15, 50))));
    assert_eq!(date_from_julian_day(2_299_160 * DAY), Ok((1582, 10, days(4, 50))));
}

#[test]
fn dates_of_known_julian_days() {
    assert_eq!(date_from_julian_day(days(2_436_116, 31)), Ok((1957, 10, days(4, 81))));
    assert_eq!(date_from_julian_day(days(1_842_713, 0)), Ok((333, 1, days(27, 50))));
    assert_eq!(date_from_julian_day(days(1_507_900, 13)), Ok((-584, 5, days(28, 63))));
    assert_eq!(date_from_julian_day(2_451_545 * DAY), Ok((2000, 1, days(1, 50))));
    assert_eq!(date_from_julian_day(0), Ok((-4712, 1, days(1, 50))));
    assert_eq!(date_from_julian_day(HALF), Ok((-4712, 1, days(2, 0))));
    assert_eq!(date_from_julian_day(HALF - 1), Ok((-4712, 1, days(2, 0) - 1)));
}

#[test]
fn dates_of_the_latest_julian_days() {
    assert_eq!(date_from_julian_day(i64::MAX), Ok((287_564, 12, 3 * DAY + 57_654_775_807)));
    let (year, month, decimal_day) = date_from_julian_day(i64::MAX - DAY).unwrap();
    assert_eq!((year, month, decimal_day), (287_564, 12, 2 * DAY + 57_654_775_807));
}

#[test]
fn negative_julian_day_is_refused() {
    assert_eq!(date_from_julian_day(-DAY), Err(JulianDayError::Negative));
    assert_eq!(date_from_julian_day(-1), Err(JulianDayError::Negative));
    assert_eq!(date_from_julian_day(i64::MIN), Err(JulianDayError::Negative));
}

#[test]
fn gregorian_dates_come_back_from_their_julian_day() {
    let time_of_day = [0, 1, HALF, DAY - 1];
    for year in [1583i16, 1600, 1700, 1899, 1900, 1999, 2000, 2023, 2024, 2100, 2400, 9999, 32767] {
        for month in MONTHS {
            for day in 1..=month_length(year, month, CalType::Gregorian) {
                for time in time_of_day {
                    let d = date(year, month, day * DAY + time, CalType::Gregorian);
                    let back = date_from_julian_day(julian_day(&d));
                    assert_eq!(back, Ok((year as i32, month.number(), d.decimal_day)));
                }
            }
        }
    }
}

#[test]
fn julian_dates_come_back_from_their_julian_day() {
    for year in [-4712i16, -4711, -1000, -1, 0, 1, 4, 100, 400, 1000, 1500, 1581] {
        for month in MONTHS {
            for day in 1..=month_length(year, month, CalType::Julian) {
                let d = date(year, month, day * DAY + HALF + HALF / 3, CalType::Julian);
                let back = date_from_julian_day(julian_day(&d));
                assert_eq!(back, Ok((year as i32, month.number(), d.decimal_day)));
            }
        }
    }
}

#[test]
fn dates_before_the_julian_day_scale_do_not_come_back() {
    // the scale starts at noon of 1 January -4712 of the Julian calendar
    let d = date(-4712, Month::Jan, days(1, 50) - 1, CalType::Julian);
    assert_eq!(julian_day(&d), -1);
    assert_eq!(date_from_julian_day(julian_day(&d)), Err(JulianDayError::Negative));
    let d = date(-4713, Month::Nov, days(24, 0), CalType::Gregorian);
    assert_eq!(julian_day(&d), -HALF);
    assert_eq!(date_from_julian_day(julian_day(&d)), Err(JulianDayError::Negative));
}

#[test]
fn gregorian_dates_before_the_reform_come_back_as_julian_dates() {
    // 1 January 1500 of the Gregorian calendar is 23 December 1499 of the Julian one
    let d = date(1500, Month::Jan, days(1, 0), CalType::Gregorian);
    assert_eq!(date_from_julian_day(julian_day(&d)), Ok((1499, 12, days(23, 0))));
}

#[test]
fn julian_days_come_back_from_their_date() {
    let mut z: i64 = 0;
    while z < 5_000_000 {
        for time in [0, 1, HALF - 1, HALF, DAY - 1] {
            let jd = z * DAY + time;
            let (year, month, decimal_day) = date_from_julian_day(jd).unwrap();
            let cal_type = if jd + HALF < GREGORIAN_REFORM * DAY {
                CalType::Julian
            } else {
                CalType::Gregorian
            };
            let month = Month::from_number(month).unwrap();
            let day = decimal_day / DAY;
            assert!(1 <= day && day <= month_length(year as i16, month, cal_type));
            assert_eq!(julian_day(&date(year as i16, month, decimal_day, cal_type)), jd);
        }
        z += 997;
    }
}

#[test]
fn every_day_around_the_reform_comes_back() {
    for z in (GREGORIAN_REFORM - 800)..(GREGORIAN_REFORM + 800) {
        let jd = z * DAY;
        let (year, month, decimal_day) = date_from_julian_day(jd).unwrap();
        let cal_type = if z < GREGORIAN_REFORM { CalType::Julian } else { CalType::Gregorian };
        let month = Month::from_number(month).unwrap();
        assert_eq!(julian_day(&date(year as i16, month, decimal_day, cal_type)), jd);
    }
}

#[test]
fn weekday_of_j2000_is_saturday() {
    let noon = date(2000, Month::Jan, DAY + HALF, CalType::Gregorian);
    assert_eq!(julian_day(&noon), 2_451_545 * DAY);
    assert_eq!(weekday_from_date(&noon), Weekday::Saturday);
}

#[test]
fn weekdays_of_known_dates() {
    let g = CalType::Gregorian;
    assert_eq!(weekday_from_date(&date(1954, Month::June, days(30, 0), g)), Weekday::Wednesday);
    assert_eq!(weekday_from_date(&date(2024, Month::Feb, days(29, 0), g)), Weekday::Thursday);
    assert_eq!(weekday_from_date(&date(1970, Month::Jan, days(1, 0), g)), Weekday::Thursday);
    assert_eq!(weekday_from_date(&date(1582, Month::Oct, days(15, 0), g)), Weekday::Friday);
}

#[test]
fn weekdays_follow_each_other() {
    let week = [
        Weekday::Sunday,
        Weekday::Monday,
        Weekday::Tuesday,
        Weekday::Wednesday,
        Weekday::Thursday,
        Weekday::Friday,
        Weekday::Saturday,
    ];
    // 2 January 2000 was a Sunday
    for i in 0..28 {
        let d = date(2000, Month::Jan, (2 + i) * DAY, CalType::Gregorian);
        assert_eq!(weekday_from_date(&d), week[(i % 7) as usize]);
    }
}

#[test]
fn weekday_reads_the_day_without_its_time_and_in_the_gregorian_calendar() {
    let morning = date(2000, Month::Jan, days(1, 0), CalType::Gregorian);
    let night = date(2000, Month::Jan, days(2, 0) - 1, CalType::Gregorian);
    let named_julian = date(2000, Month::Jan, days(1, 50), CalType::Julian);
    assert_eq!(weekday_from_date(&morning), Weekday::Saturday);
    assert_eq!(weekday_from_date(&night), Weekday::Saturday);
    assert_eq!(weekday_from_date(&named_julian), Weekday::Saturday);
}

#[test]
fn weekday_of_days_before_the_julian_day_scale() {
    // the Gregorian day number of 1 January -5000 is -105152, and -105151 = 7 * (-15022) + 3
    let d = date(-5000, Month::Jan, days(1, 0), CalType::Gregorian);
    assert_eq!(julian_day(&d), -105_152 * DAY - HALF);
    assert_eq!(weekday_from_date(&d), Weekday::Wednesday);
    let d = date(-5000, Month::Jan, -days(3, 0), CalType::Gregorian);
    assert_eq!(weekday_from_date(&d), Weekday::Saturday);
    let d = date(i16::MIN, Month::Jan, i64::MIN, CalType::Gregorian);
    assert_eq!(weekday_from_date(&d), Weekday::Saturday);
    let d = date(i16::MAX, Month::Dec, i64::MAX, CalType::Gregorian);
    assert_eq!(weekday_from_date(&d), Weekday::Sunday);
}

#[test]
fn decimal_day_adds_the_time_of_day() {
    let noon = DayOfMonth { day: 1, hr: 12, min: 0, sec: 0, time_zone: 0 };
    assert_eq!(decimal_day(&noon), DAY + HALF);
    let d = DayOfMonth { day: 4, hr: 19, min: 26, sec: 24_000_000, time_zone: 0 };
    assert_eq!(decimal_day(&d), days(4, 81));
    let d = DayOfMonth { day: 31, hr: 23, min: 59, sec: 59_999_999, time_zone: 0 };
    assert_eq!(decimal_day(&d), 32 * DAY - 1);
    let d = DayOfMonth { day: 7, hr: 1, min: 2, sec: 3_000_004, time_zone: 0 };
    assert_eq!(
        decimal_day(&d),
        7 * DAY + MICROS_PER_HOUR + 2 * MICROS_PER_MINUTE + 3 * MICROS_PER_SECOND + 4
    );
}

#[test]
fn decimal_day_takes_the_time_zone_off() {
    let pacific = DayOfMonth { day: 10, hr: 16, min: 0, sec: 0, time_zone: -8 * 3600 };
    assert_eq!(decimal_day(&pacific), 11 * DAY);
    let india = DayOfMonth { day: 10, hr: 5, min: 30, sec: 0, time_zone: 5 * 3600 + 1800 };
    assert_eq!(decimal_day(&india), 10 * DAY);
    let east = DayOfMonth { day: 0, hr: 0, min: 0, sec: 0, time_zone: 3600 };
    assert_eq!(decimal_day(&east), -MICROS_PER_HOUR);
}

#[test]
fn decimal_day_takes_every_field_value() {
    let most = DayOfMonth { day: 255, hr: 255, min: 255, sec: u32::MAX, time_zone: i32::MIN };
    assert_eq!(
        decimal_day(&most),
        255 * DAY + 255 * MICROS_PER_HOUR + 255 * MICROS_PER_MINUTE + 4_294_967_295
            + 2_147_483_648 * MICROS_PER_SECOND
    );
    let least = DayOfMonth { day: 0, hr: 0, min: 0, sec: 0, time_zone: i32::MAX };
    assert_eq!(decimal_day(&least), -2_147_483_647 * MICROS_PER_SECOND);
}

#[test]
fn decimal_year_in_january_is_the_decimal_day_over_the_year() {
    let d = date(2001, Month::Jan, days(1, 50), CalType::Gregorian);
    assert_eq!(
        decimal_year(&d),
        DecimalYear { year: 2001, elapsed: days(1, 50), length: 365 * DAY }
    );
    // a leap year has 366 days in January too
    let d = date(2000, Month::Jan, days(31, 0), CalType::Gregorian);
    assert_eq!(
        decimal_year(&d),
        DecimalYear { year: 2000, elapsed: 31 * DAY, length: 366 * DAY }
    );
    let d = date(2000, Month::Jan, days(1, 50), CalType::Gregorian);
    let f = decimal_year(&d);
    assert_eq!(f, DecimalYear { year: 2000, elapsed: days(1, 50), length: 366 * DAY });
    let value = f.year as f64 + f.elapsed as f64 / f.length as f64;
    assert!((value - (2000.0 + 1.5 / 366.0)).abs() < 1.0e-9);
}

#[test]
fn decimal_year_counts_the_months_before() {
    let before = [0i64, 31, 59, 90, 120, 151, 181, 212, 243, 273, 304, 334];
    for (i, month) in MONTHS.iter().enumerate() {
        let d = date(1999, *month, days(1, 0), CalType::Gregorian);
        let f = decimal_year(&d);
        assert_eq!(f, DecimalYear { year: 1999, elapsed: (before[i] + 1) * DAY, length: 365 * DAY });
    }
}

#[test]
fn decimal_year_counts_the_leap_day_from_march_on() {
    let feb = date(2024, Month::Feb, days(29, 0), CalType::Gregorian);
    assert_eq!(
        decimal_year(&feb),
        DecimalYear { year: 2024, elapsed: 60 * DAY, length: 366 * DAY }
    );
    let mar = date(2024, Month::Mar, days(1, 0), CalType::Gregorian);
    assert_eq!(
        decimal_year(&mar),
        DecimalYear { year: 2024, elapsed: 61 * DAY, length: 366 * DAY }
    );
    let dec = date(2024, Month::Dec, days(31, 50), CalType::Gregorian);
    assert_eq!(
        decimal_year(&dec),
        DecimalYear { year: 2024, elapsed: days(366, 50), length: 366 * DAY }
    );
    // 1900 is a leap year in the Julian calendar only
    let julian = date(1900, Month::Mar, days(1, 0), CalType::Julian);
    assert_eq!(decimal_year(&julian).length, 366 * DAY);
    let gregorian = date(1900, Month::Mar, days(1, 0), CalType::Gregorian);
    assert_eq!(decimal_year(&gregorian).length, 365 * DAY);
    assert_eq!(decimal_year(&gregorian).elapsed, 60 * DAY);
}

#[test]
fn julian_century_counts_from_j2000() {
    assert_eq!(J2000, 2_451_545 * DAY);
    assert_eq!(MICROS_PER_CENTURY, 36_525 * DAY);
    assert_eq!(julian_century(J2000), Elapsed { elapsed: 0, unit: 36_525 * DAY });
    // 1 January 2100 at noon is one century later
    let later = julian_day(&date(2100, Month::Jan, days(1, 50), CalType::Gregorian));
    assert_eq!(julian_century(later), Elapsed { elapsed: 36_525 * DAY as i128, unit: 36_525 * DAY });
    // 10 April 1987 at 0h is -0.127296372348 centuries
    let earlier = julian_day(&date(1987, Month::Apr, days(10, 0), CalType::Gregorian));
    let century = julian_century(earlier);
    assert_eq!(century.elapsed, -4_649 * DAY as i128 - HALF as i128);
    let value = century.elapsed as f64 / century.unit as f64;
    assert!((value + 0.127296372348).abs() < 1.0e-12);
    assert_eq!(julian_century(0).elapsed, -2_451_545 * DAY as i128);
    assert_eq!(julian_century(i64::MIN).elapsed, i64::MIN as i128 - J2000 as i128);
    assert_eq!(julian_century(i64::MAX).elapsed, i64::MAX as i128 - J2000 as i128);
}

#[test]
fn julian_millennium_counts_from_j2000() {
    assert_eq!(julian_millennium(J2000), Elapsed { elapsed: 0, unit: 365_250 * DAY });
    let later = julian_day(&date(3000, Month::Jan, days(1, 50), CalType::Julian));
    // a thousand Julian years later, in the calendar whose years are all 365.25 days,
    // less the thirteen days by which that calendar was behind in 2000
    assert_eq!(julian_millennium(later).elapsed, (365_250 + 13) * DAY as i128);
    assert_eq!(julian_millennium(i64::MIN).elapsed, i64::MIN as i128 - J2000 as i128);
}

#[test]
fn decimal_year_grows_with_the_date() {
    for (year, cal_type) in [
        (2000i16, CalType::Gregorian),
        (1900, CalType::Gregorian),
        (1900, CalType::Julian),
        (2023, CalType::Gregorian),
        (-4, CalType::Julian),
    ] {
        let length = if is_leap_year(year, &cal_type) { 366 * DAY } else { 365 * DAY };
        let mut last: i64 = 0;
        for month in MONTHS {
            for day in 1..=month_length(year, month, cal_type) {
                for time in [0, HALF, DAY - 1] {
                    let f = decimal_year(&date(year, month, day * DAY + time, cal_type));
                    assert_eq!(f.year, year);
                    assert_eq!(f.length, length);
                    assert!(last < f.elapsed);
                    assert!(DAY <= f.elapsed && f.elapsed < length + DAY);
                    last = f.elapsed;
                }
            }
        }
        // the last instant of the year has counted the whole year and a day, less that instant
        assert_eq!(last, length + DAY - 1);
    }
}

#[test]
fn decimal_year_does_not_fall_at_the_end_of_february() {
    let feb = decimal_year(&date(2000, Month::Feb, days(29, 90), CalType::Gregorian));
    let mar = decimal_year(&date(2000, Month::Mar, days(1, 0), CalType::Gregorian));
    assert_eq!(feb, DecimalYear { year: 2000, elapsed: days(60, 90), length: 366 * DAY });
    assert_eq!(mar, DecimalYear { year: 2000, elapsed: days(61, 0), length: 366 * DAY });
}
