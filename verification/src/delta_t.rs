//! ΔT, the difference between Terrestrial Time and Universal Time.
//!
//! ΔT is a polynomial in the decimal year, a different one for each of
//! fifteen spans of years. Each polynomial is stated here as an exact
//! fraction of seconds, and computed to the microsecond below it.
//!
//! The polynomials are nested brackets `c + u * inner`, with `u = t / g` for
//! whole numbers `t` and `g`. Where the inner part is `v / w`, the bracket is
//! `(c * g * w + t * v) / (g * w)`. So each span is computed on whole numbers,
//! from the innermost coefficient outwards: it starts over the common
//! denominator of the span's coefficients, and each bracket multiplies the
//! denominator by `g`. The number added at a bracket is its coefficient
//! written over the denominator reached, which the `assert` before it says.

use crate::floor::floor_div;
use crate::ratio::lemma_floor;
use crate::ratio::lemma_minus;
use crate::ratio::lemma_nest_minus;
use crate::ratio::lemma_nest_plus;
use crate::ratio::lemma_product_bound;
use crate::ratio::lemma_rescale;
use crate::ratio::lemma_times;
use crate::ratio::ratio;
use crate::ratio::Ratio;
use vstd::prelude::*;

verus! {

/// Twenty-four times the decimal year `y = year + (month - 0.5) / 12`, which
/// is a whole number: the decimal year is `n / 24`.
pub open spec fn spec_year_24(year: int, month: int) -> int {
    24 * year + 2 * month - 1
}

/// The number `(y - base) / scale` for the decimal year `y = n / 24`.
pub open spec fn spec_shifted(n: int, base: int, scale: int) -> Ratio {
    ratio(n - 24 * base, 24 * scale)
}

/// The microseconds that a number of seconds holds: the number times a
/// million, rounded down.
pub open spec fn spec_micros(seconds: Ratio) -> int {
    ratio(1_000_000, 1).times(seconds).floor()
}

/// ΔT in seconds for the years before -500 and after 2150:
/// `32 u u - 20` with `u = (y - 1820) / 100`.
pub open spec fn spec_delta_t_parabola(n: int) -> Ratio {
    let u = spec_shifted(n, 1_820, 100);
    ratio(32, 1).times(u).times(u).minus(ratio(20, 1))
}

/// ΔT in seconds for the years from -500 to 500, with `u = y / 100`:
///
///     10583.6 - u (1014.41 + u (33.78311 + u (5.952053 - u (0.1798452 - u
///         (0.022174192 - 0.0090316521 u)))))
pub open spec fn spec_delta_t_since_minus_500(n: int) -> Ratio {
    let u = spec_shifted(n, 0, 100);
    let b6 = ratio(90_316_521, 10_000_000_000);
    let b5 = ratio(22_174_192, 1_000_000_000).minus(u.times(b6));
    let b4 = ratio(1_798_452, 10_000_000).minus(u.times(b5));
    let b3 = ratio(5_952_053, 1_000_000).minus(u.times(b4));
    let b2 = ratio(3_378_311, 100_000).plus(u.times(b3));
    let b1 = ratio(101_441, 100).plus(u.times(b2));
    ratio(105_836, 10).minus(u.times(b1))
}

/// ΔT in seconds for the years from 500 to 1600, with `u = (y - 1000) / 100`:
///
///     1574.2 - u (556.01 - u (71.23472 + u (0.319781 - u (0.8503463 + u
///         (0.005050998 - 0.0083572073 u)))))
pub open spec fn spec_delta_t_since_500(n: int) -> Ratio {
    let u = spec_shifted(n, 1_000, 100);
    let b6 = ratio(83_572_073, 10_000_000_000);
    let b5 = ratio(5_050_998, 1_000_000_000).minus(u.times(b6));
    let b4 = ratio(8_503_463, 10_000_000).plus(u.times(b5));
    let b3 = ratio(319_781, 1_000_000).minus(u.times(b4));
    let b2 = ratio(7_123_472, 100_000).plus(u.times(b3));
    let b1 = ratio(55_601, 100).minus(u.times(b2));
    ratio(15_742, 10).minus(u.times(b1))
}

/// ΔT in seconds for the years from 1600 to 1700, with `u = y - 1600`:
///
///     120 - u (0.9808 + u (0.01532 - u / 7129))
pub open spec fn spec_delta_t_since_1600(n: int) -> Ratio {
    let u = spec_shifted(n, 1_600, 1);
    let b3 = ratio(1, 7_129);
    let b2 = ratio(1_532, 100_000).minus(u.times(b3));
    let b1 = ratio(9_808, 10_000).plus(u.times(b2));
    ratio(120, 1).minus(u.times(b1))
}

/// ΔT in seconds for the years from 1700 to 1800, with `u = y - 1700`:
///
///     8.83 + u (0.1603 - u (0.0059285 - u (0.00013336 + u / 1174000)))
pub open spec fn spec_delta_t_since_1700(n: int) -> Ratio {
    let u = spec_shifted(n, 1_700, 1);
    let b4 = ratio(1, 1_174_000);
    let b3 = ratio(13_336, 100_000_000).plus(u.times(b4));
    let b2 = ratio(59_285, 10_000_000).minus(u.times(b3));
    let b1 = ratio(1_603, 10_000).minus(u.times(b2));
    ratio(883, 100).plus(u.times(b1))
}

/// ΔT in seconds for the years from 1800 to 1860, with `u = y - 1800`:
///
///     13.72 - u (0.332447 - u (0.0068612 + u (0.0041116 - u (0.00037436 - u
///         (0.0000121272 + u (0.0000001699 - 0.000000000875 u))))))
pub open spec fn spec_delta_t_since_1800(n: int) -> Ratio {
    let u = spec_shifted(n, 1_800, 1);
    let b7 = ratio(875, 1_000_000_000_000);
    let b6 = ratio(1_699, 10_000_000_000).minus(u.times(b7));
    let b5 = ratio(121_272, 10_000_000_000).plus(u.times(b6));
    let b4 = ratio(37_436, 100_000_000).minus(u.times(b5));
    let b3 = ratio(41_116, 10_000_000).minus(u.times(b4));
    let b2 = ratio(68_612, 10_000_000).plus(u.times(b3));
    let b1 = ratio(332_447, 1_000_000).minus(u.times(b2));
    ratio(1_372, 100).minus(u.times(b1))
}

/// ΔT in seconds for the years from 1860 to 1900, with `u = y - 1860`:
///
///     7.62 + u (0.5737 - u (0.251754 - u (0.01680668 - u (0.0004473624 + u /
///         233174))))
pub open spec fn spec_delta_t_since_1860(n: int) -> Ratio {
    let u = spec_shifted(n, 1_860, 1);
    let b5 = ratio(1, 233_174);
    let b4 = ratio(4_473_624, 10_000_000_000).plus(u.times(b5));
    let b3 = ratio(1_680_668, 100_000_000).minus(u.times(b4));
    let b2 = ratio(251_754, 1_000_000).minus(u.times(b3));
    let b1 = ratio(5_737, 10_000).minus(u.times(b2));
    ratio(762, 100).plus(u.times(b1))
}

/// ΔT in seconds for the years from 1900 to 1920, with `u = y - 1900`:
///
///     -2.79 + u (1.494119 - u (0.0598939 - u (0.0061966 + 0.000197 u)))
pub open spec fn spec_delta_t_since_1900(n: int) -> Ratio {
    let u = spec_shifted(n, 1_900, 1);
    let b4 = ratio(197, 1_000_000);
    let b3 = ratio(61_966, 10_000_000).plus(u.times(b4));
    let b2 = ratio(598_939, 10_000_000).minus(u.times(b3));
    let b1 = ratio(1_494_119, 1_000_000).minus(u.times(b2));
    ratio(-279, 100).plus(u.times(b1))
}

/// ΔT in seconds for the years from 1920 to 1941, with `u = y - 1920`:
///
///     21.20 + u (0.84493 - u (0.076100 - 0.0020936 u))
pub open spec fn spec_delta_t_since_1920(n: int) -> Ratio {
    let u = spec_shifted(n, 1_920, 1);
    let b3 = ratio(20_936, 10_000_000);
    let b2 = ratio(76_100, 1_000_000).minus(u.times(b3));
    let b1 = ratio(84_493, 100_000).minus(u.times(b2));
    ratio(2_120, 100).plus(u.times(b1))
}

/// ΔT in seconds for the years from 1941 to 1961, with `u = y - 1950`:
///
///     29.07 + u (0.407 - u (1 / 233 - u / 2547))
pub open spec fn spec_delta_t_since_1941(n: int) -> Ratio {
    let u = spec_shifted(n, 1_950, 1);
    let b3 = ratio(1, 2_547);
    let b2 = ratio(1, 233).minus(u.times(b3));
    let b1 = ratio(407, 1_000).minus(u.times(b2));
    ratio(2_907, 100).plus(u.times(b1))
}

/// ΔT in seconds for the years from 1961 to 1986, with `u = y - 1975`:
///
///     45.45 + u (1.067 - u (1 / 260 + u / 718))
pub open spec fn spec_delta_t_since_1961(n: int) -> Ratio {
    let u = spec_shifted(n, 1_975, 1);
    let b3 = ratio(1, 718);
    let b2 = ratio(1, 260).plus(u.times(b3));
    let b1 = ratio(1_067, 1_000).minus(u.times(b2));
    ratio(4_545, 100).plus(u.times(b1))
}

/// ΔT in seconds for the years from 1986 to 2005, with `u = y - 2000`:
///
///     63.86 + u (0.3345 - u (0.060374 - u (0.0017275 + u (0.000651814 +
///         0.00002373599 u))))
pub open spec fn spec_delta_t_since_1986(n: int) -> Ratio {
    let u = spec_shifted(n, 2_000, 1);
    let b5 = ratio(2_373_599, 100_000_000_000);
    let b4 = ratio(651_814, 1_000_000_000).plus(u.times(b5));
    let b3 = ratio(17_275, 10_000_000).plus(u.times(b4));
    let b2 = ratio(60_374, 1_000_000).minus(u.times(b3));
    let b1 = ratio(3_345, 10_000).minus(u.times(b2));
    ratio(6_386, 100).plus(u.times(b1))
}

/// ΔT in seconds for the years from 2005 to 2050, with `u = y - 2000`:
///
///     62.92 + u (0.32217 + 0.005589 u)
pub open spec fn spec_delta_t_since_2005(n: int) -> Ratio {
    let u = spec_shifted(n, 2_000, 1);
    let b2 = ratio(5_589, 1_000_000);
    let b1 = ratio(32_217, 100_000).plus(u.times(b2));
    ratio(6_292, 100).plus(u.times(b1))
}

/// ΔT in seconds for the years from 2050 to 2150:
/// `32 u u - 20 - 0.5628 (2150 - y)` with `u = (y - 1820) / 100`.
pub open spec fn spec_delta_t_since_2050(n: int) -> Ratio {
    spec_delta_t_parabola(n).minus(
        ratio(5_628, 10_000).times(ratio(2_150, 1).minus(ratio(n, 24))),
    )
}

/// ΔT in seconds at the decimal year `n / 24`. Each span of years takes in
/// its first instant and leaves out its last, but for the span that ends
/// with the year 2150, which takes in both.
pub open spec fn spec_delta_t_seconds(n: int) -> Ratio {
    if n < 24 * (-500) {
        spec_delta_t_parabola(n)
    } else if n < 24 * 500 {
        spec_delta_t_since_minus_500(n)
    } else if n < 24 * 1_600 {
        spec_delta_t_since_500(n)
    } else if n < 24 * 1_700 {
        spec_delta_t_since_1600(n)
    } else if n < 24 * 1_800 {
        spec_delta_t_since_1700(n)
    } else if n < 24 * 1_860 {
        spec_delta_t_since_1800(n)
    } else if n < 24 * 1_900 {
        spec_delta_t_since_1860(n)
    } else if n < 24 * 1_920 {
        spec_delta_t_since_1900(n)
    } else if n < 24 * 1_941 {
        spec_delta_t_since_1920(n)
    } else if n < 24 * 1_961 {
        spec_delta_t_since_1941(n)
    } else if n < 24 * 1_986 {
        spec_delta_t_since_1961(n)
    } else if n < 24 * 2_005 {
        spec_delta_t_since_1986(n)
    } else if n < 24 * 2_050 {
        spec_delta_t_since_2005(n)
    } else if n <= 24 * 2_150 {
        spec_delta_t_since_2050(n)
    } else {
        spec_delta_t_parabola(n)
    }
}

/// ΔT in microseconds, rounded down, for a year and a month.
pub open spec fn spec_delta_t(year: int, month: int) -> int {
    spec_micros(spec_delta_t_seconds(spec_year_24(year, month)))
}

/// The microseconds in a number of seconds that is `v / w`, once the factor
/// `g` that a million and `w` share is taken out of both.
proof fn lemma_micros(seconds: Ratio, v: int, w: int, g: int, m: int, w2: int)
    requires
        seconds.equals(v, w),
        g > 0,
        w2 > 0,
        1_000_000 == g * m,
        w == g * w2,
    ensures
        spec_micros(seconds) == (v * m) / w2,
{
    let scaled = ratio(1_000_000, 1).times(seconds);
    assert(scaled.num * w2 == (v * m) * scaled.den) by (nonlinear_arith)
        requires
            scaled.num == (g * m) * seconds.num,
            scaled.den == seconds.den,
            seconds.num * (g * w2) == v * seconds.den,
    ;
    lemma_floor(scaled, v * m, w2);
}

/// The parabola over the denominator `2400 * 2400`.
proof fn lemma_parabola(n: int)
    ensures
        spec_delta_t_parabola(n).equals(32 * (n - 43_680) * (n - 43_680) - 115_200_000, 5_760_000),
{
    let t = n - 43_680;
    let u = spec_shifted(n, 1_820, 100);
    lemma_times(ratio(32, 1), u, 32, 1, t, 2_400);
    lemma_times(ratio(32, 1).times(u), u, 32 * t, 2_400, t, 2_400);
    lemma_minus(ratio(32, 1).times(u).times(u), ratio(20, 1), 32 * t * t, 115_200_000, 5_760_000);
}

/// ΔT in microseconds for the years before -500 and after 2150.
fn delta_t_parabola(n: i128) -> (micros: i128)
    requires
        -60_000_000_000 <= n <= 60_000_000_000,
    ensures
        micros == spec_micros(spec_delta_t_parabola(n as int)),
{
    let t: i128 = n - 43_680;
    proof {
        lemma_product_bound(32 * t as int, t as int, 1_930_000_000_000, 60_100_000_000);
        lemma_parabola(n as int);
        lemma_micros(
            spec_delta_t_parabola(n as int),
            32 * t * t - 115_200_000,
            5_760_000,
            40_000,
            25,
            144,
        );
    }
    let v: i128 = 32 * t * t - 115_200_000;
    floor_div(v * 25, 144)
}

/// ΔT in microseconds for the years from 2050 to 2150.
fn delta_t_since_2050(n: i128) -> (micros: i128)
    requires
        24 * 2_050 <= n <= 24 * 2_150,
    ensures
        micros == spec_micros(spec_delta_t_since_2050(n as int)),
{
    let t: i128 = n - 43_680;
    let ghost left = ratio(2_150, 1).minus(ratio(n as int, 24));
    let ghost line = ratio(5_628, 10_000).times(left);
    proof {
        lemma_product_bound(32 * t as int, t as int, 260_000, 8_000);
        lemma_parabola(n as int);
        lemma_minus(ratio(2_150, 1), ratio(n as int, 24), 51_600, n as int, 24);
        lemma_times(ratio(5_628, 10_000), left, 5_628, 10_000, 51_600 - n, 24);
        lemma_rescale(line, 5_628 * (51_600 - n), 240_000, 24);
        lemma_minus(
            spec_delta_t_parabola(n as int),
            line,
            32 * t * t - 115_200_000,
            5_628 * (51_600 - n) * 24,
            5_760_000,
        );
        lemma_micros(
            spec_delta_t_since_2050(n as int),
            32 * t * t - 115_200_000 - 5_628 * (51_600 - n) * 24,
            5_760_000,
            40_000,
            25,
            144,
        );
    }
    let v: i128 = 32 * t * t - 115_200_000 - 5_628 * (51_600 - n) * 24;
    floor_div(v * 25, 144)
}

/// ΔT in microseconds for the years from -500 to 500.
fn delta_t_since_minus_500(n: i128) -> (micros: i128)
    requires
        24 * (-500) <= n < 24 * 500,
    ensures
        micros == spec_micros(spec_delta_t_since_minus_500(n as int)),
{
    let t: i128 = n - 0;
    let ghost u = spec_shifted(n as int, 0, 100);
    let ghost b6 = ratio(90_316_521, 10_000_000_000);
    let ghost b5 = ratio(22_174_192, 1_000_000_000).minus(u.times(b6));
    let ghost b4 = ratio(1_798_452, 10_000_000).minus(u.times(b5));
    let ghost b3 = ratio(5_952_053, 1_000_000).minus(u.times(b4));
    let ghost b2 = ratio(3_378_311, 100_000).plus(u.times(b3));
    let ghost b1 = ratio(101_441, 100).plus(u.times(b2));
    let ghost b0 = ratio(105_836, 10).minus(u.times(b1));
    let v6: i128 = 90_316_521;
    assert(b6.equals(v6 as int, 10_000_000_000));
    proof {
        assert(ratio(22_174_192, 1_000_000_000).equals(532_180_608_000, 24_000_000_000_000));
        assert(24_000_000_000_000 == 2_400 * 10_000_000_000int);
        lemma_product_bound(t as int, v6 as int, 12_000, 90_316_521);
        lemma_nest_minus(
            ratio(22_174_192, 1_000_000_000),
            b6,
            532_180_608_000,
            t as int,
            2_400,
            v6 as int,
            10_000_000_000,
            24_000_000_000_000,
        );
    }
    let v5: i128 = 532_180_608_000 - t * v6;
    proof {
        assert(ratio(1_798_452, 10_000_000).equals(10_359_083_520_000_000, 57_600_000_000_000_000));
        assert(57_600_000_000_000_000 == 2_400 * 24_000_000_000_000int);
        lemma_product_bound(t as int, v5 as int, 12_000, 1_615_978_860_000);
        lemma_nest_minus(
            ratio(1_798_452, 10_000_000),
            b5,
            10_359_083_520_000_000,
            t as int,
            2_400,
            v5 as int,
            24_000_000_000_000,
            57_600_000_000_000_000,
        );
    }
    let v4: i128 = 10_359_083_520_000_000 - t * v5;
    proof {
        assert(ratio(5_952_053, 1_000_000).equals(
            822_811_806_720_000_000_000,
            138_240_000_000_000_000_000,
        ));
        assert(138_240_000_000_000_000_000 == 2_400 * 57_600_000_000_000_000int);
        lemma_product_bound(t as int, v4 as int, 12_000, 29_750_829_840_000_000);
        lemma_nest_minus(
            ratio(5_952_053, 1_000_000),
            b4,
            822_811_806_720_000_000_000,
            t as int,
            2_400,
            v4 as int,
            57_600_000_000_000_000,
            138_240_000_000_000_000_000,
        );
    }
    let v3: i128 = 822_811_806_720_000_000_000 - t * v4;
    proof {
        assert(ratio(3_378_311, 100_000).equals(
            11_208_425_103_360_000_000_000_000,
            331_776_000_000_000_000_000_000,
        ));
        assert(331_776_000_000_000_000_000_000 == 2_400 * 138_240_000_000_000_000_000int);
        lemma_product_bound(t as int, v3 as int, 12_000, 1_179_821_764_800_000_000_000);
        lemma_nest_plus(
            ratio(3_378_311, 100_000),
            b3,
            11_208_425_103_360_000_000_000_000,
            t as int,
            2_400,
            v3 as int,
            138_240_000_000_000_000_000,
            331_776_000_000_000_000_000_000,
        );
    }
    let v2: i128 = 11_208_425_103_360_000_000_000_000 + t * v3;
    proof {
        assert(ratio(101_441, 100).equals(
            807_736_541_184_000_000_000_000_000_000,
            796_262_400_000_000_000_000_000_000,
        ));
        assert(796_262_400_000_000_000_000_000_000 == 2_400 * 331_776_000_000_000_000_000_000int);
        lemma_product_bound(t as int, v2 as int, 12_000, 25_366_286_280_960_000_000_000_000);
        lemma_nest_plus(
            ratio(101_441, 100),
            b2,
            807_736_541_184_000_000_000_000_000_000,
            t as int,
            2_400,
            v2 as int,
            331_776_000_000_000_000_000_000,
            796_262_400_000_000_000_000_000_000,
        );
    }
    let v1: i128 = 807_736_541_184_000_000_000_000_000_000 + t * v2;
    proof {
        assert(ratio(105_836, 10).equals(
            20_225_574_567_936_000_000_000_000_000_000_000,
            1_911_029_760_000_000_000_000_000_000_000,
        ));
        assert(1_911_029_760_000_000_000_000_000_000_000 == 2_400
            * 796_262_400_000_000_000_000_000_000int);
        lemma_product_bound(t as int, v1 as int, 12_000, 1_112_131_976_555_520_000_000_000_000_000);
        lemma_nest_minus(
            ratio(105_836, 10),
            b1,
            20_225_574_567_936_000_000_000_000_000_000_000,
            t as int,
            2_400,
            v1 as int,
            796_262_400_000_000_000_000_000_000,
            1_911_029_760_000_000_000_000_000_000_000,
        );
    }
    let v0: i128 = 20_225_574_567_936_000_000_000_000_000_000_000 - t * v1;
    proof {
        lemma_micros(
            b0,
            v0 as int,
            1_911_029_760_000_000_000_000_000_000_000,
            1_000_000,
            1,
            1_911_029_760_000_000_000_000_000,
        );
    }
    floor_div(v0, 1_911_029_760_000_000_000_000_000)
}

/// ΔT in microseconds for the years from 500 to 1600.
fn delta_t_since_500(n: i128) -> (micros: i128)
    requires
        24 * 500 <= n < 24 * 1_600,
    ensures
        micros == spec_micros(spec_delta_t_since_500(n as int)),
{
    let t: i128 = n - 24_000;
    let ghost u = spec_shifted(n as int, 1_000, 100);
    let ghost b6 = ratio(83_572_073, 10_000_000_000);
    let ghost b5 = ratio(5_050_998, 1_000_000_000).minus(u.times(b6));
    let ghost b4 = ratio(8_503_463, 10_000_000).plus(u.times(b5));
    let ghost b3 = ratio(319_781, 1_000_000).minus(u.times(b4));
    let ghost b2 = ratio(7_123_472, 100_000).plus(u.times(b3));
    let ghost b1 = ratio(55_601, 100).minus(u.times(b2));
    let ghost b0 = ratio(15_742, 10).minus(u.times(b1));
    let v6: i128 = 83_572_073;
    assert(b6.equals(v6 as int, 10_000_000_000));
    proof {
        assert(ratio(5_050_998, 1_000_000_000).equals(121_223_952_000, 24_000_000_000_000));
        assert(24_000_000_000_000 == 2_400 * 10_000_000_000int);
        lemma_product_bound(t as int, v6 as int, 14_400, 83_572_073);
        lemma_nest_minus(
            ratio(5_050_998, 1_000_000_000),
            b6,
            121_223_952_000,
            t as int,
            2_400,
            v6 as int,
            10_000_000_000,
            24_000_000_000_000,
        );
    }
    let v5: i128 = 121_223_952_000 - t * v6;
    proof {
        assert(ratio(8_503_463, 10_000_000).equals(48_979_946_880_000_000, 57_600_000_000_000_000));
        assert(57_600_000_000_000_000 == 2_400 * 24_000_000_000_000int);
        lemma_product_bound(t as int, v5 as int, 14_400, 1_324_661_803_200);
        lemma_nest_plus(
            ratio(8_503_463, 10_000_000),
            b5,
            48_979_946_880_000_000,
            t as int,
            2_400,
            v5 as int,
            24_000_000_000_000,
            57_600_000_000_000_000,
        );
    }
    let v4: i128 = 48_979_946_880_000_000 + t * v5;
    proof {
        assert(ratio(319_781, 1_000_000).equals(
            44_206_525_440_000_000_000,
            138_240_000_000_000_000_000,
        ));
        assert(138_240_000_000_000_000_000 == 2_400 * 57_600_000_000_000_000int);
        lemma_product_bound(t as int, v4 as int, 14_400, 68_055_076_846_080_000);
        lemma_nest_minus(
            ratio(319_781, 1_000_000),
            b4,
            44_206_525_440_000_000_000,
            t as int,
            2_400,
            v4 as int,
            57_600_000_000_000_000,
            138_240_000_000_000_000_000,
        );
    }
    let v3: i128 = 44_206_525_440_000_000_000 - t * v4;
    proof {
        assert(ratio(7_123_472, 100_000).equals(
            23_633_970_462_720_000_000_000_000,
            331_776_000_000_000_000_000_000,
        ));
        assert(331_776_000_000_000_000_000_000 == 2_400 * 138_240_000_000_000_000_000int);
        lemma_product_bound(t as int, v3 as int, 14_400, 1_024_199_632_023_552_000_000);
        lemma_nest_plus(
            ratio(7_123_472, 100_000),
            b3,
            23_633_970_462_720_000_000_000_000,
            t as int,
            2_400,
            v3 as int,
            138_240_000_000_000_000_000,
            331_776_000_000_000_000_000_000,
        );
    }
    let v2: i128 = 23_633_970_462_720_000_000_000_000 + t * v3;
    proof {
        assert(ratio(55_601, 100).equals(
            442_729_857_024_000_000_000_000_000_000,
            796_262_400_000_000_000_000_000_000,
        ));
        assert(796_262_400_000_000_000_000_000_000 == 2_400 * 331_776_000_000_000_000_000_000int);
        lemma_product_bound(t as int, v2 as int, 14_400, 38_382_445_163_859_148_800_000_000);
        lemma_nest_minus(
            ratio(55_601, 100),
            b2,
            442_729_857_024_000_000_000_000_000_000,
            t as int,
            2_400,
            v2 as int,
            331_776_000_000_000_000_000_000,
            796_262_400_000_000_000_000_000_000,
        );
    }
    let v1: i128 = 442_729_857_024_000_000_000_000_000_000 - t * v2;
    proof {
        assert(ratio(15_742, 10).equals(
            3_008_343_048_192_000_000_000_000_000_000_000,
            1_911_029_760_000_000_000_000_000_000_000,
        ));
        assert(1_911_029_760_000_000_000_000_000_000_000 == 2_400
            * 796_262_400_000_000_000_000_000_000int);
        lemma_product_bound(t as int, v1 as int, 14_400, 995_437_067_383_571_742_720_000_000_000);
        lemma_nest_minus(
            ratio(15_742, 10),
            b1,
            3_008_343_048_192_000_000_000_000_000_000_000,
            t as int,
            2_400,
            v1 as int,
            796_262_400_000_000_000_000_000_000,
            1_911_029_760_000_000_000_000_000_000_000,
        );
    }
    let v0: i128 = 3_008_343_048_192_000_000_000_000_000_000_000 - t * v1;
    proof {
        lemma_micros(
            b0,
            v0 as int,
            1_911_029_760_000_000_000_000_000_000_000,
            1_000_000,
            1,
            1_911_029_760_000_000_000_000_000,
        );
    }
    floor_div(v0, 1_911_029_760_000_000_000_000_000)
}

/// ΔT in microseconds for the years from 1600 to 1700.
fn delta_t_since_1600(n: i128) -> (micros: i128)
    requires
        24 * 1_600 <= n < 24 * 1_700,
    ensures
        micros == spec_micros(spec_delta_t_since_1600(n as int)),
{
    let t: i128 = n - 38_400;
    let ghost u = spec_shifted(n as int, 1_600, 1);
    let ghost b3 = ratio(1, 7_129);
    let ghost b2 = ratio(1_532, 100_000).minus(u.times(b3));
    let ghost b1 = ratio(9_808, 10_000).plus(u.times(b2));
    let ghost b0 = ratio(120, 1).minus(u.times(b1));
    let v3: i128 = 100_000;
    assert(b3.equals(v3 as int, 712_900_000));
    proof {
        assert(ratio(1_532, 100_000).equals(262_119_072, 17_109_600_000));
        assert(17_109_600_000 == 24 * 712_900_000int);
        lemma_product_bound(t as int, v3 as int, 2_400, 100_000);
        lemma_nest_minus(
            ratio(1_532, 100_000),
            b3,
            262_119_072,
            t as int,
            24,
            v3 as int,
            712_900_000,
            17_109_600_000,
        );
    }
    let v2: i128 = 262_119_072 - t * v3;
    proof {
        assert(ratio(9_808, 10_000).equals(402_746_296_320, 410_630_400_000));
        assert(410_630_400_000 == 24 * 17_109_600_000int);
        lemma_product_bound(t as int, v2 as int, 2_400, 502_119_072);
        lemma_nest_plus(
            ratio(9_808, 10_000),
            b2,
            402_746_296_320,
            t as int,
            24,
            v2 as int,
            17_109_600_000,
            410_630_400_000,
        );
    }
    let v1: i128 = 402_746_296_320 + t * v2;
    proof {
        assert(ratio(120, 1).equals(1_182_615_552_000_000, 9_855_129_600_000));
        assert(9_855_129_600_000 == 24 * 410_630_400_000int);
        lemma_product_bound(t as int, v1 as int, 2_400, 1_607_832_069_120);
        lemma_nest_minus(
            ratio(120, 1),
            b1,
            1_182_615_552_000_000,
            t as int,
            24,
            v1 as int,
            410_630_400_000,
            9_855_129_600_000,
        );
    }
    let v0: i128 = 1_182_615_552_000_000 - t * v1;
    proof {
        lemma_micros(b0, v0 as int, 9_855_129_600_000, 200_000, 5, 49_275_648);
    }
    floor_div(v0 * 5, 49_275_648)
}

/// ΔT in microseconds for the years from 1700 to 1800.
fn delta_t_since_1700(n: i128) -> (micros: i128)
    requires
        24 * 1_700 <= n < 24 * 1_800,
    ensures
        micros == spec_micros(spec_delta_t_since_1700(n as int)),
{
    let t: i128 = n - 40_800;
    let ghost u = spec_shifted(n as int, 1_700, 1);
    let ghost b4 = ratio(1, 1_174_000);
    let ghost b3 = ratio(13_336, 100_000_000).plus(u.times(b4));
    let ghost b2 = ratio(59_285, 10_000_000).minus(u.times(b3));
    let ghost b1 = ratio(1_603, 10_000).minus(u.times(b2));
    let ghost b0 = ratio(883, 100).plus(u.times(b1));
    let v4: i128 = 50_000;
    assert(b4.equals(v4 as int, 58_700_000_000));
    proof {
        assert(ratio(13_336, 100_000_000).equals(187_877_568, 1_408_800_000_000));
        assert(1_408_800_000_000 == 24 * 58_700_000_000int);
        lemma_product_bound(t as int, v4 as int, 2_400, 50_000);
        lemma_nest_plus(
            ratio(13_336, 100_000_000),
            b4,
            187_877_568,
            t as int,
            24,
            v4 as int,
            58_700_000_000,
            1_408_800_000_000,
        );
    }
    let v3: i128 = 187_877_568 + t * v4;
    proof {
        assert(ratio(59_285, 10_000_000).equals(200_449_699_200, 33_811_200_000_000));
        assert(33_811_200_000_000 == 24 * 1_408_800_000_000int);
        lemma_product_bound(t as int, v3 as int, 2_400, 307_877_568);
        lemma_nest_minus(
            ratio(59_285, 10_000_000),
            b3,
            200_449_699_200,
            t as int,
            24,
            v3 as int,
            1_408_800_000_000,
            33_811_200_000_000,
        );
    }
    let v2: i128 = 200_449_699_200 - t * v3;
    proof {
        assert(ratio(1_603, 10_000).equals(130_078_448_640_000, 811_468_800_000_000));
        assert(811_468_800_000_000 == 24 * 33_811_200_000_000int);
        lemma_product_bound(t as int, v2 as int, 2_400, 939_355_862_400);
        lemma_nest_minus(
            ratio(1_603, 10_000),
            b2,
            130_078_448_640_000,
            t as int,
            24,
            v2 as int,
            33_811_200_000_000,
            811_468_800_000_000,
        );
    }
    let v1: i128 = 130_078_448_640_000 - t * v2;
    proof {
        assert(ratio(883, 100).equals(171_966_468_096_000_000, 19_475_251_200_000_000));
        assert(19_475_251_200_000_000 == 24 * 811_468_800_000_000int);
        lemma_product_bound(t as int, v1 as int, 2_400, 2_384_532_518_400_000);
        lemma_nest_plus(
            ratio(883, 100),
            b1,
            171_966_468_096_000_000,
            t as int,
            24,
            v1 as int,
            811_468_800_000_000,
            19_475_251_200_000_000,
        );
    }
    let v0: i128 = 171_966_468_096_000_000 + t * v1;
    proof {
        lemma_micros(b0, v0 as int, 19_475_251_200_000_000, 1_000_000, 1, 19_475_251_200);
    }
    floor_div(v0, 19_475_251_200)
}

/// ΔT in microseconds for the years from 1800 to 1860.
fn delta_t_since_1800(n: i128) -> (micros: i128)
    requires
        24 * 1_800 <= n < 24 * 1_860,
    ensures
        micros == spec_micros(spec_delta_t_since_1800(n as int)),
{
    let t: i128 = n - 43_200;
    let ghost u = spec_shifted(n as int, 1_800, 1);
    let ghost b7 = ratio(875, 1_000_000_000_000);
    let ghost b6 = ratio(1_699, 10_000_000_000).minus(u.times(b7));
    let ghost b5 = ratio(121_272, 10_000_000_000).plus(u.times(b6));
    let ghost b4 = ratio(37_436, 100_000_000).minus(u.times(b5));
    let ghost b3 = ratio(41_116, 10_000_000).minus(u.times(b4));
    let ghost b2 = ratio(68_612, 10_000_000).plus(u.times(b3));
    let ghost b1 = ratio(332_447, 1_000_000).minus(u.times(b2));
    let ghost b0 = ratio(1_372, 100).minus(u.times(b1));
    let v7: i128 = 875;
    assert(b7.equals(v7 as int, 1_000_000_000_000));
    proof {
        assert(ratio(1_699, 10_000_000_000).equals(4_077_600, 24_000_000_000_000));
        assert(24_000_000_000_000 == 24 * 1_000_000_000_000int);
        lemma_product_bound(t as int, v7 as int, 1_440, 875);
        lemma_nest_minus(
            ratio(1_699, 10_000_000_000),
            b7,
            4_077_600,
            t as int,
            24,
            v7 as int,
            1_000_000_000_000,
            24_000_000_000_000,
        );
    }
    let v6: i128 = 4_077_600 - t * v7;
    proof {
        assert(ratio(121_272, 10_000_000_000).equals(6_985_267_200, 576_000_000_000_000));
        assert(576_000_000_000_000 == 24 * 24_000_000_000_000int);
        lemma_product_bound(t as int, v6 as int, 1_440, 5_337_600);
        lemma_nest_plus(
            ratio(121_272, 10_000_000_000),
            b6,
            6_985_267_200,
            t as int,
            24,
            v6 as int,
            24_000_000_000_000,
            576_000_000_000_000,
        );
    }
    let v5: i128 = 6_985_267_200 + t * v6;
    proof {
        assert(ratio(37_436, 100_000_000).equals(5_175_152_640_000, 13_824_000_000_000_000));
        assert(13_824_000_000_000_000 == 24 * 576_000_000_000_000int);
        lemma_product_bound(t as int, v5 as int, 1_440, 14_671_411_200);
        lemma_nest_minus(
            ratio(37_436, 100_000_000),
            b5,
            5_175_152_640_000,
            t as int,
            24,
            v5 as int,
            576_000_000_000_000,
            13_824_000_000_000_000,
        );
    }
    let v4: i128 = 5_175_152_640_000 - t * v5;
    proof {
        assert(ratio(41_116, 10_000_000).equals(1_364_130_201_600_000, 331_776_000_000_000_000));
        assert(331_776_000_000_000_000 == 24 * 13_824_000_000_000_000int);
        lemma_product_bound(t as int, v4 as int, 1_440, 26_301_984_768_000);
        lemma_nest_minus(
            ratio(41_116, 10_000_000),
            b4,
            1_364_130_201_600_000,
            t as int,
            24,
            v4 as int,
            13_824_000_000_000_000,
            331_776_000_000_000_000,
        );
    }
    let v3: i128 = 1_364_130_201_600_000 - t * v4;
    proof {
        assert(ratio(68_612, 10_000_000).equals(54_633_155_788_800_000, 7_962_624_000_000_000_000));
        assert(7_962_624_000_000_000_000 == 24 * 331_776_000_000_000_000int);
        lemma_product_bound(t as int, v3 as int, 1_440, 39_238_988_267_520_000);
        lemma_nest_plus(
            ratio(68_612, 10_000_000),
            b3,
            54_633_155_788_800_000,
            t as int,
            24,
            v3 as int,
            331_776_000_000_000_000,
            7_962_624_000_000_000_000,
        );
    }
    let v2: i128 = 54_633_155_788_800_000 + t * v3;
    proof {
        assert(ratio(332_447, 1_000_000).equals(
            63_531_611_062_272_000_000,
            191_102_976_000_000_000_000,
        ));
        assert(191_102_976_000_000_000_000 == 24 * 7_962_624_000_000_000_000int);
        lemma_product_bound(t as int, v2 as int, 1_440, 56_558_776_261_017_600_000);
        lemma_nest_minus(
            ratio(332_447, 1_000_000),
            b2,
            63_531_611_062_272_000_000,
            t as int,
            24,
            v2 as int,
            7_962_624_000_000_000_000,
            191_102_976_000_000_000_000,
        );
    }
    let v1: i128 = 63_531_611_062_272_000_000 - t * v2;
    proof {
        assert(ratio(1_372, 100).equals(
            62_926_387_937_280_000_000_000,
            4_586_471_424_000_000_000_000,
        ));
        assert(4_586_471_424_000_000_000_000 == 24 * 191_102_976_000_000_000_000int);
        lemma_product_bound(t as int, v1 as int, 1_440, 81_508_169_426_927_616_000_000);
        lemma_nest_minus(
            ratio(1_372, 100),
            b1,
            62_926_387_937_280_000_000_000,
            t as int,
            24,
            v1 as int,
            191_102_976_000_000_000_000,
            4_586_471_424_000_000_000_000,
        );
    }
    let v0: i128 = 62_926_387_937_280_000_000_000 - t * v1;
    proof {
        lemma_micros(
            b0,
            v0 as int,
            4_586_471_424_000_000_000_000,
            1_000_000,
            1,
            4_586_471_424_000_000,
        );
    }
    floor_div(v0, 4_586_471_424_000_000)
}

/// ΔT in microseconds for the years from 1860 to 1900.
fn delta_t_since_1860(n: i128) -> (micros: i128)
    requires
        24 * 1_860 <= n < 24 * 1_900,
    ensures
        micros == spec_micros(spec_delta_t_since_1860(n as int)),
{
    let t: i128 = n - 44_640;
    let ghost u = spec_shifted(n as int, 1_860, 1);
    let ghost b5 = ratio(1, 233_174);
    let ghost b4 = ratio(4_473_624, 10_000_000_000).plus(u.times(b5));
    let ghost b3 = ratio(1_680_668, 100_000_000).minus(u.times(b4));
    let ghost b2 = ratio(251_754, 1_000_000).minus(u.times(b3));
    let ghost b1 = ratio(5_737, 10_000).minus(u.times(b2));
    let ghost b0 = ratio(762, 100).plus(u.times(b1));
    let v5: i128 = 5_000_000_000;
    assert(b5.equals(v5 as int, 1_165_870_000_000_000));
    proof {
        assert(ratio(4_473_624, 10_000_000_000).equals(12_517_593_630_912, 27_980_880_000_000_000));
        assert(27_980_880_000_000_000 == 24 * 1_165_870_000_000_000int);
        lemma_product_bound(t as int, v5 as int, 960, 5_000_000_000);
        lemma_nest_plus(
            ratio(4_473_624, 10_000_000_000),
            b5,
            12_517_593_630_912,
            t as int,
            24,
            v5 as int,
            1_165_870_000_000_000,
            27_980_880_000_000_000,
        );
    }
    let v4: i128 = 12_517_593_630_912 + t * v5;
    proof {
        assert(ratio(1_680_668, 100_000_000).equals(
            11_286_376_710_681_600,
            671_541_120_000_000_000,
        ));
        assert(671_541_120_000_000_000 == 24 * 27_980_880_000_000_000int);
        lemma_product_bound(t as int, v4 as int, 960, 17_317_593_630_912);
        lemma_nest_minus(
            ratio(1_680_668, 100_000_000),
            b4,
            11_286_376_710_681_600,
            t as int,
            24,
            v4 as int,
            27_980_880_000_000_000,
            671_541_120_000_000_000,
        );
    }
    let v3: i128 = 11_286_376_710_681_600 - t * v4;
    proof {
        assert(ratio(251_754, 1_000_000).equals(
            4_057_515_914_987_520_000,
            16_116_986_880_000_000_000,
        ));
        assert(16_116_986_880_000_000_000 == 24 * 671_541_120_000_000_000int);
        lemma_product_bound(t as int, v3 as int, 960, 27_911_266_596_357_120);
        lemma_nest_minus(
            ratio(251_754, 1_000_000),
            b3,
            4_057_515_914_987_520_000,
            t as int,
            24,
            v3 as int,
            671_541_120_000_000_000,
            16_116_986_880_000_000_000,
        );
    }
    let v2: i128 = 4_057_515_914_987_520_000 - t * v3;
    proof {
        assert(ratio(5_737, 10_000).equals(
            221_911_568_953_344_000_000,
            386_807_685_120_000_000_000,
        ));
        assert(386_807_685_120_000_000_000 == 24 * 16_116_986_880_000_000_000int);
        lemma_product_bound(t as int, v2 as int, 960, 30_852_331_847_490_355_200);
        lemma_nest_minus(
            ratio(5_737, 10_000),
            b2,
            221_911_568_953_344_000_000,
            t as int,
            24,
            v2 as int,
            16_116_986_880_000_000_000,
            386_807_685_120_000_000_000,
        );
    }
    let v1: i128 = 221_911_568_953_344_000_000 - t * v2;
    proof {
        assert(ratio(762, 100).equals(
            70_739_389_454_745_600_000_000,
            9_283_384_442_880_000_000_000,
        ));
        assert(9_283_384_442_880_000_000_000 == 24 * 386_807_685_120_000_000_000int);
        lemma_product_bound(t as int, v1 as int, 960, 29_840_150_142_544_084_992_000);
        lemma_nest_plus(
            ratio(762, 100),
            b1,
            70_739_389_454_745_600_000_000,
            t as int,
            24,
            v1 as int,
            386_807_685_120_000_000_000,
            9_283_384_442_880_000_000_000,
        );
    }
    let v0: i128 = 70_739_389_454_745_600_000_000 + t * v1;
    proof {
        lemma_micros(
            b0,
            v0 as int,
            9_283_384_442_880_000_000_000,
            1_000_000,
            1,
            9_283_384_442_880_000,
        );
    }
    floor_div(v0, 9_283_384_442_880_000)
}

/// ΔT in microseconds for the years from 1900 to 1920.
fn delta_t_since_1900(n: i128) -> (micros: i128)
    requires
        24 * 1_900 <= n < 24 * 1_920,
    ensures
        micros == spec_micros(spec_delta_t_since_1900(n as int)),
{
    let t: i128 = n - 45_600;
    let ghost u = spec_shifted(n as int, 1_900, 1);
    let ghost b4 = ratio(197, 1_000_000);
    let ghost b3 = ratio(61_966, 10_000_000).plus(u.times(b4));
    let ghost b2 = ratio(598_939, 10_000_000).minus(u.times(b3));
    let ghost b1 = ratio(1_494_119, 1_000_000).minus(u.times(b2));
    let ghost b0 = ratio(-279, 100).plus(u.times(b1));
    let v4: i128 = 1_970;
    assert(b4.equals(v4 as int, 10_000_000));
    proof {
        assert(ratio(61_966, 10_000_000).equals(1_487_184, 240_000_000));
        assert(240_000_000 == 24 * 10_000_000int);
        lemma_product_bound(t as int, v4 as int, 480, 1_970);
        lemma_nest_plus(
            ratio(61_966, 10_000_000),
            b4,
            1_487_184,
            t as int,
            24,
            v4 as int,
            10_000_000,
            240_000_000,
        );
    }
    let v3: i128 = 1_487_184 + t * v4;
    proof {
        assert(ratio(598_939, 10_000_000).equals(344_988_864, 5_760_000_000));
        assert(5_760_000_000 == 24 * 240_000_000int);
        lemma_product_bound(t as int, v3 as int, 480, 2_432_784);
        lemma_nest_minus(
            ratio(598_939, 10_000_000),
            b3,
            344_988_864,
            t as int,
            24,
            v3 as int,
            240_000_000,
            5_760_000_000,
        );
    }
    let v2: i128 = 344_988_864 - t * v3;
    proof {
        assert(ratio(1_494_119, 1_000_000).equals(206_547_010_560, 138_240_000_000));
        assert(138_240_000_000 == 24 * 5_760_000_000int);
        lemma_product_bound(t as int, v2 as int, 480, 1_512_725_184);
        lemma_nest_minus(
            ratio(1_494_119, 1_000_000),
            b2,
            206_547_010_560,
            t as int,
            24,
            v2 as int,
            5_760_000_000,
            138_240_000_000,
        );
    }
    let v1: i128 = 206_547_010_560 - t * v2;
    proof {
        assert(ratio(-279, 100).equals(-9_256_550_400_000, 3_317_760_000_000));
        assert(3_317_760_000_000 == 24 * 138_240_000_000int);
        lemma_product_bound(t as int, v1 as int, 480, 932_655_098_880);
        lemma_nest_plus(
            ratio(-279, 100),
            b1,
            -9_256_550_400_000,
            t as int,
            24,
            v1 as int,
            138_240_000_000,
            3_317_760_000_000,
        );
    }
    let v0: i128 = -9_256_550_400_000 + t * v1;
    proof {
        lemma_micros(b0, v0 as int, 3_317_760_000_000, 1_000_000, 1, 3_317_760);
    }
    floor_div(v0, 3_317_760)
}

/// ΔT in microseconds for the years from 1920 to 1941.
fn delta_t_since_1920(n: i128) -> (micros: i128)
    requires
        24 * 1_920 <= n < 24 * 1_941,
    ensures
        micros == spec_micros(spec_delta_t_since_1920(n as int)),
{
    let t: i128 = n - 46_080;
    let ghost u = spec_shifted(n as int, 1_920, 1);
    let ghost b3 = ratio(20_936, 10_000_000);
    let ghost b2 = ratio(76_100, 1_000_000).minus(u.times(b3));
    let ghost b1 = ratio(84_493, 100_000).minus(u.times(b2));
    let ghost b0 = ratio(2_120, 100).plus(u.times(b1));
    let v3: i128 = 20_936;
    assert(b3.equals(v3 as int, 10_000_000));
    proof {
        assert(ratio(76_100, 1_000_000).equals(18_264_000, 240_000_000));
        assert(240_000_000 == 24 * 10_000_000int);
        lemma_product_bound(t as int, v3 as int, 504, 20_936);
        lemma_nest_minus(
            ratio(76_100, 1_000_000),
            b3,
            18_264_000,
            t as int,
            24,
            v3 as int,
            10_000_000,
            240_000_000,
        );
    }
    let v2: i128 = 18_264_000 - t * v3;
    proof {
        assert(ratio(84_493, 100_000).equals(4_866_796_800, 5_760_000_000));
        assert(5_760_000_000 == 24 * 240_000_000int);
        lemma_product_bound(t as int, v2 as int, 504, 28_815_744);
        lemma_nest_minus(
            ratio(84_493, 100_000),
            b2,
            4_866_796_800,
            t as int,
            24,
            v2 as int,
            240_000_000,
            5_760_000_000,
        );
    }
    let v1: i128 = 4_866_796_800 - t * v2;
    proof {
        assert(ratio(2_120, 100).equals(2_930_688_000_000, 138_240_000_000));
        assert(138_240_000_000 == 24 * 5_760_000_000int);
        lemma_product_bound(t as int, v1 as int, 504, 19_389_931_776);
        lemma_nest_plus(
            ratio(2_120, 100),
            b1,
            2_930_688_000_000,
            t as int,
            24,
            v1 as int,
            5_760_000_000,
            138_240_000_000,
        );
    }
    let v0: i128 = 2_930_688_000_000 + t * v1;
    proof {
        lemma_micros(b0, v0 as int, 138_240_000_000, 1_000_000, 1, 138_240);
    }
    floor_div(v0, 138_240)
}

/// ΔT in microseconds for the years from 1941 to 1961.
fn delta_t_since_1941(n: i128) -> (micros: i128)
    requires
        24 * 1_941 <= n < 24 * 1_961,
    ensures
        micros == spec_micros(spec_delta_t_since_1941(n as int)),
{
    let t: i128 = n - 46_800;
    let ghost u = spec_shifted(n as int, 1_950, 1);
    let ghost b3 = ratio(1, 2_547);
    let ghost b2 = ratio(1, 233).minus(u.times(b3));
    let ghost b1 = ratio(407, 1_000).minus(u.times(b2));
    let ghost b0 = ratio(2_907, 100).plus(u.times(b1));
    let v3: i128 = 233_000;
    assert(b3.equals(v3 as int, 593_451_000));
    proof {
        assert(ratio(1, 233).equals(61_128_000, 14_242_824_000));
        assert(14_242_824_000 == 24 * 593_451_000int);
        lemma_product_bound(t as int, v3 as int, 264, 233_000);
        lemma_nest_minus(
            ratio(1, 233),
            b3,
            61_128_000,
            t as int,
            24,
            v3 as int,
            593_451_000,
            14_242_824_000,
        );
    }
    let v2: i128 = 61_128_000 - t * v3;
    proof {
        assert(ratio(407, 1_000).equals(139_123_904_832, 341_827_776_000));
        assert(341_827_776_000 == 24 * 14_242_824_000int);
        lemma_product_bound(t as int, v2 as int, 264, 122_640_000);
        lemma_nest_minus(
            ratio(407, 1_000),
            b2,
            139_123_904_832,
            t as int,
            24,
            v2 as int,
            14_242_824_000,
            341_827_776_000,
        );
    }
    let v1: i128 = 139_123_904_832 - t * v2;
    proof {
        assert(ratio(2_907, 100).equals(238_486_402_759_680, 8_203_866_624_000));
        assert(8_203_866_624_000 == 24 * 341_827_776_000int);
        lemma_product_bound(t as int, v1 as int, 264, 171_500_864_832);
        lemma_nest_plus(
            ratio(2_907, 100),
            b1,
            238_486_402_759_680,
            t as int,
            24,
            v1 as int,
            341_827_776_000,
            8_203_866_624_000,
        );
    }
    let v0: i128 = 238_486_402_759_680 + t * v1;
    proof {
        lemma_micros(b0, v0 as int, 8_203_866_624_000, 8_000, 125, 1_025_483_328);
    }
    floor_div(v0 * 125, 1_025_483_328)
}

/// ΔT in microseconds for the years from 1961 to 1986.
fn delta_t_since_1961(n: i128) -> (micros: i128)
    requires
        24 * 1_961 <= n < 24 * 1_986,
    ensures
        micros == spec_micros(spec_delta_t_since_1961(n as int)),
{
    let t: i128 = n - 47_400;
    let ghost u = spec_shifted(n as int, 1_975, 1);
    let ghost b3 = ratio(1, 718);
    let ghost b2 = ratio(1, 260).plus(u.times(b3));
    let ghost b1 = ratio(1_067, 1_000).minus(u.times(b2));
    let ghost b0 = ratio(4_545, 100).plus(u.times(b1));
    let v3: i128 = 6_500;
    assert(b3.equals(v3 as int, 4_667_000));
    proof {
        assert(ratio(1, 260).equals(430_800, 112_008_000));
        assert(112_008_000 == 24 * 4_667_000int);
        lemma_product_bound(t as int, v3 as int, 336, 6_500);
        lemma_nest_plus(
            ratio(1, 260),
            b3,
            430_800,
            t as int,
            24,
            v3 as int,
            4_667_000,
            112_008_000,
        );
    }
    let v2: i128 = 430_800 + t * v3;
    proof {
        assert(ratio(1_067, 1_000).equals(2_868_300_864, 2_688_192_000));
        assert(2_688_192_000 == 24 * 112_008_000int);
        lemma_product_bound(t as int, v2 as int, 336, 2_614_800);
        lemma_nest_minus(
            ratio(1_067, 1_000),
            b2,
            2_868_300_864,
            t as int,
            24,
            v2 as int,
            112_008_000,
            2_688_192_000,
        );
    }
    let v1: i128 = 2_868_300_864 - t * v2;
    proof {
        assert(ratio(4_545, 100).equals(2_932_279_833_600, 64_516_608_000));
        assert(64_516_608_000 == 24 * 2_688_192_000int);
        lemma_product_bound(t as int, v1 as int, 336, 3_746_873_664);
        lemma_nest_plus(
            ratio(4_545, 100),
            b1,
            2_932_279_833_600,
            t as int,
            24,
            v1 as int,
            2_688_192_000,
            64_516_608_000,
        );
    }
    let v0: i128 = 2_932_279_833_600 + t * v1;
    proof {
        lemma_micros(b0, v0 as int, 64_516_608_000, 8_000, 125, 8_064_576);
    }
    floor_div(v0 * 125, 8_064_576)
}

/// ΔT in microseconds for the years from 1986 to 2005.
fn delta_t_since_1986(n: i128) -> (micros: i128)
    requires
        24 * 1_986 <= n < 24 * 2_005,
    ensures
        micros == spec_micros(spec_delta_t_since_1986(n as int)),
{
    let t: i128 = n - 48_000;
    let ghost u = spec_shifted(n as int, 2_000, 1);
    let ghost b5 = ratio(2_373_599, 100_000_000_000);
    let ghost b4 = ratio(651_814, 1_000_000_000).plus(u.times(b5));
    let ghost b3 = ratio(17_275, 10_000_000).plus(u.times(b4));
    let ghost b2 = ratio(60_374, 1_000_000).minus(u.times(b3));
    let ghost b1 = ratio(3_345, 10_000).minus(u.times(b2));
    let ghost b0 = ratio(6_386, 100).plus(u.times(b1));
    let v5: i128 = 2_373_599;
    assert(b5.equals(v5 as int, 100_000_000_000));
    proof {
        assert(ratio(651_814, 1_000_000_000).equals(1_564_353_600, 2_400_000_000_000));
        assert(2_400_000_000_000 == 24 * 100_000_000_000int);
        lemma_product_bound(t as int, v5 as int, 336, 2_373_599);
        lemma_nest_plus(
            ratio(651_814, 1_000_000_000),
            b5,
            1_564_353_600,
            t as int,
            24,
            v5 as int,
            100_000_000_000,
            2_400_000_000_000,
        );
    }
    let v4: i128 = 1_564_353_600 + t * v5;
    proof {
        assert(ratio(17_275, 10_000_000).equals(99_504_000_000, 57_600_000_000_000));
        assert(57_600_000_000_000 == 24 * 2_400_000_000_000int);
        lemma_product_bound(t as int, v4 as int, 336, 2_361_882_864);
        lemma_nest_plus(
            ratio(17_275, 10_000_000),
            b4,
            99_504_000_000,
            t as int,
            24,
            v4 as int,
            2_400_000_000_000,
            57_600_000_000_000,
        );
    }
    let v3: i128 = 99_504_000_000 + t * v4;
    proof {
        assert(ratio(60_374, 1_000_000).equals(83_461_017_600_000, 1_382_400_000_000_000));
        assert(1_382_400_000_000_000 == 24 * 57_600_000_000_000int);
        lemma_product_bound(t as int, v3 as int, 336, 893_096_642_304);
        lemma_nest_minus(
            ratio(60_374, 1_000_000),
            b3,
            83_461_017_600_000,
            t as int,
            24,
            v3 as int,
            57_600_000_000_000,
            1_382_400_000_000_000,
        );
    }
    let v2: i128 = 83_461_017_600_000 - t * v3;
    proof {
        assert(ratio(3_345, 10_000).equals(11_097_907_200_000_000, 33_177_600_000_000_000));
        assert(33_177_600_000_000_000 == 24 * 1_382_400_000_000_000int);
        lemma_product_bound(t as int, v2 as int, 336, 383_541_489_414_144);
        lemma_nest_minus(
            ratio(3_345, 10_000),
            b2,
            11_097_907_200_000_000,
            t as int,
            24,
            v2 as int,
            1_382_400_000_000_000,
            33_177_600_000_000_000,
        );
    }
    let v1: i128 = 11_097_907_200_000_000 - t * v2;
    proof {
        assert(ratio(6_386, 100).equals(50_849_316_864_000_000_000, 796_262_400_000_000_000));
        assert(796_262_400_000_000_000 == 24 * 33_177_600_000_000_000int);
        lemma_product_bound(t as int, v1 as int, 336, 139_967_847_643_152_384);
        lemma_nest_plus(
            ratio(6_386, 100),
            b1,
            50_849_316_864_000_000_000,
            t as int,
            24,
            v1 as int,
            33_177_600_000_000_000,
            796_262_400_000_000_000,
        );
    }
    let v0: i128 = 50_849_316_864_000_000_000 + t * v1;
    proof {
        lemma_micros(b0, v0 as int, 796_262_400_000_000_000, 1_000_000, 1, 796_262_400_000);
    }
    floor_div(v0, 796_262_400_000)
}

/// ΔT in microseconds for the years from 2005 to 2050.
fn delta_t_since_2005(n: i128) -> (micros: i128)
    requires
        24 * 2_005 <= n < 24 * 2_050,
    ensures
        micros == spec_micros(spec_delta_t_since_2005(n as int)),
{
    let t: i128 = n - 48_000;
    let ghost u = spec_shifted(n as int, 2_000, 1);
    let ghost b2 = ratio(5_589, 1_000_000);
    let ghost b1 = ratio(32_217, 100_000).plus(u.times(b2));
    let ghost b0 = ratio(6_292, 100).plus(u.times(b1));
    let v2: i128 = 5_589;
    assert(b2.equals(v2 as int, 1_000_000));
    proof {
        assert(ratio(32_217, 100_000).equals(7_732_080, 24_000_000));
        assert(24_000_000 == 24 * 1_000_000int);
        lemma_product_bound(t as int, v2 as int, 1_200, 5_589);
        lemma_nest_plus(
            ratio(32_217, 100_000),
            b2,
            7_732_080,
            t as int,
            24,
            v2 as int,
            1_000_000,
            24_000_000,
        );
    }
    let v1: i128 = 7_732_080 + t * v2;
    proof {
        assert(ratio(6_292, 100).equals(36_241_920_000, 576_000_000));
        assert(576_000_000 == 24 * 24_000_000int);
        lemma_product_bound(t as int, v1 as int, 1_200, 14_438_880);
        lemma_nest_plus(
            ratio(6_292, 100),
            b1,
            36_241_920_000,
            t as int,
            24,
            v1 as int,
            24_000_000,
            576_000_000,
        );
    }
    let v0: i128 = 36_241_920_000 + t * v1;
    proof {
        lemma_micros(b0, v0 as int, 576_000_000, 1_000_000, 1, 576);
    }
    floor_div(v0, 576)
}

/// Computes an approximate value of ΔT for a given year and month, in
/// microseconds, rounded down.
///
/// The decimal year is `year + (month - 0.5) / 12`, whatever number the
/// month is.
pub fn delta_t(year: i32, month: u8) -> (micros: i128)
    ensures
        micros == spec_delta_t(year as int, month as int),
{
    let n: i128 = 24 * (year as i128) + 2 * (month as i128) - 1;
    if n < 24 * (-500) {
        delta_t_parabola(n)
    } else if n < 24 * 500 {
        delta_t_since_minus_500(n)
    } else if n < 24 * 1_600 {
        delta_t_since_500(n)
    } else if n < 24 * 1_700 {
        delta_t_since_1600(n)
    } else if n < 24 * 1_800 {
        delta_t_since_1700(n)
    } else if n < 24 * 1_860 {
        delta_t_since_1800(n)
    } else if n < 24 * 1_900 {
        delta_t_since_1860(n)
    } else if n < 24 * 1_920 {
        delta_t_since_1900(n)
    } else if n < 24 * 1_941 {
        delta_t_since_1920(n)
    } else if n < 24 * 1_961 {
        delta_t_since_1941(n)
    } else if n < 24 * 1_986 {
        delta_t_since_1961(n)
    } else if n < 24 * 2_005 {
        delta_t_since_1986(n)
    } else if n < 24 * 2_050 {
        delta_t_since_2005(n)
    } else if n <= 24 * 2_150 {
        delta_t_since_2050(n)
    } else {
        delta_t_parabola(n)
    }
}

} // verus!
