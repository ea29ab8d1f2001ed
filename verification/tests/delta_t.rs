use apollo::time::delta_t;

/// The polynomials in floating point, with the decimal year formed as
/// `year + (month - 0.5) / 12`.
fn seconds(year: i32, month: u8) -> f64 {
    let y = (year as f64) + ((month as f64) - 0.5) / 12.0;

    if y < -500.0 {
        let u = (y - 1820.0) / 100.0;
        32.0 * u * u - 20.0
    } else if y < 500.0 {
        let u = y / 100.0;
        10583.6
            - u * (1014.41
                + u * (33.78311
                    + u * (5.952053 - u * (0.1798452 - u * (0.022174192 - u * 0.0090316521)))))
    } else if y < 1600.0 {
        let u = (y - 1000.0) / 100.0;
        1574.2
            - u * (556.01
                - u * (71.23472
                    + u * (0.319781 - u * (0.8503463 + u * (0.005050998 - u * 0.0083572073)))))
    } else if y < 1700.0 {
        let u = y - 1600.0;
        120.0 - u * (0.9808 + u * (0.01532 - u / 7129.0))
    } else if y < 1800.0 {
        let u = y - 1700.0;
        8.83 + u * (0.1603 - u * (0.0059285 - u * (0.00013336 + u / 1174000.0)))
    } else if y < 1860.0 {
        let u = y - 1800.0;
        13.72
            - u * (0.332447
                - u * (0.0068612
                    + u * (0.0041116
                        - u * (0.00037436
                            - u * (0.0000121272 + u * (0.0000001699 - u * 0.000000000875))))))
    } else if y < 1900.0 {
        let u = y - 1860.0;
        7.62 + u * (0.5737 - u * (0.251754 - u * (0.01680668 - u * (0.0004473624 + u / 233174.0))))
    } else if y < 1920.0 {
        let u = y - 1900.0;
        -2.79 + u * (1.494119 - u * (0.0598939 - u * (0.0061966 + u * 0.000197)))
    } else if y < 1941.0 {
        let u = y - 1920.0;
        21.20 + u * (0.84493 - u * (0.076100 - u * 0.0020936))
    } else if y < 1961.0 {
        let u = y - 1950.0;
        29.07 + u * (0.407 - u * ((1.0 / 233.0) - u / 2547.0))
    } else if y < 1986.0 {
        let u = y - 1975.0;
        45.45 + u * (1.067 - u * ((1.0 / 260.0) + u / 718.0))
    } else if y < 2005.0 {
        let u = y - 2000.0;
        63.86 + u * (0.3345 - u * (0.060374 - u * (0.0017275 + u * (0.000651814 + u * 0.00002373599))))
    } else if y < 2050.0 {
        let u = y - 2000.0;
        62.92 + u * (0.32217 + u * 0.005589)
    } else if y <= 2150.0 {
        let u = (y - 1820.0) / 100.0;
        32.0 * u * u - 20.0 - 0.5628 * (2150.0 - y)
    } else {
        let u = (y - 1820.0) / 100.0;
        32.0 * u * u - 20.0
    }
}

fn close(year: i32, month: u8) -> bool {
    let exact = delta_t(year, month) as f64;
    let float = seconds(year, month) * 1.0e6;
    (exact - float).abs() <= 1.0 + float.abs() * 1.0e-12
}

#[test]
fn delta_t_agrees_with_the_polynomials_in_every_span() {
    let mut year = -3000;
    while year <= 4000 {
        let mut month = 1;
        while month <= 12 {
            assert!(close(year, month), "year {} month {}", year, month);
            month += 1;
        }
        year += 1;
    }
}

#[test]
fn delta_t_agrees_with_the_polynomials_for_far_years() {
    for year in [i32::MIN, -1_000_000_000, -20_000_000, -12_345, 54_321, 77_000_000, i32::MAX] {
        for month in [0u8, 1, 6, 12, 13, 200, 255] {
            assert!(close(year, month), "year {} month {}", year, month);
        }
    }
}

#[test]
fn delta_t_exact_values() {
    // 62.92 + u (0.32217 + 0.005589 u) at u = 10 + 1/24
    assert_eq!(delta_t(2010, 1), 66_718_690);
    // 63.86 + ... at u = 1/24
    assert_eq!(delta_t(2000, 1), 63_873_832);
    // -2.79 + ... at u = 1/24
    assert_eq!(delta_t(1900, 1), -2_727_849);
    // 32 u u - 20 at u = (2200 + 1/24 - 1820) / 100
    assert_eq!(delta_t(2200, 1), 442_181_338);
}

#[test]
fn delta_t_takes_any_month_number() {
    // month 13 of a year is the decimal year of the next January
    assert_eq!(delta_t(1999, 13), delta_t(2000, 1));
    assert_eq!(delta_t(2000, 0), delta_t(1999, 12));
}

/// ΔT in December of the year before `year`, in January of `year`, and the
/// step between the two.
fn across(year: i32) -> (i128, i128, i128) {
    let before = delta_t(year - 1, 12);
    let after = delta_t(year, 1);
    (before, after, after - before)
}

#[test]
fn delta_t_is_nearly_continuous_where_the_spans_were_fitted_together() {
    // one month carries ΔT by less than a quarter of a second in these years
    assert_eq!(across(1600), (120_269_527, 119_959_106, -310_421));
    assert_eq!(across(1700), (8_985_367, 8_836_668, -148_699));
    assert_eq!(across(1941), (24_754_916, 24_797_268, 42_352));
    assert_eq!(across(1961), (33_531_314, 33_594_798, 63_484));
    assert_eq!(across(1986), (54_847_901, 54_896_275, 48_374));
    assert_eq!(across(2005), (64_709_955, 64_686_337, -23_618));
    assert_eq!(across(2050), (92_964_298, 93_084_788, 120_490));
    assert_eq!(across(2150), (328_368_555, 328_568_005, 199_450));
}

#[test]
fn delta_t_jumps_where_two_spans_disagree() {
    // the polynomials on the two sides differ by more than a minute here;
    // the values are kept as the polynomials give them
    assert_eq!(across(-500), (17_204_298_672, 15_877_291_263, -1_327_007_409));
    assert_eq!(across(500), (4_107_864_362, 5_709_631_473, 1_601_767_111));
    assert_eq!(across(1800), (183_848_083, 13_706_160, -170_141_923));
    assert_eq!(across(1860), (10_920_205_126, 7_643_468, -10_912_561_658));
    assert_eq!(across(1900), (-876_511_715, -2_727_849, 873_783_866));
    assert_eq!(across(1920), (83_694_052, 21_235_073, -62_458_979));
}

#[test]
fn delta_t_changes_span_with_the_january_of_each_threshold() {
    for year in [-500, 500, 1600, 1700, 1800, 1860, 1900, 1920, 1941, 1961, 1986, 2005, 2050] {
        // month 0 is the last half month before the threshold, month 1 the first after
        assert!(close(year, 0), "year {}", year);
        assert!(close(year, 1), "year {}", year);
    }
    // 2150 itself is still in the span that began in 2050
    assert!(close(2150, 0));
    assert!(close(2150, 1));
}
