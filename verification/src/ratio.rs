//! Exact fractions, for stating results that are not whole numbers.

use vstd::prelude::*;

verus! {

/// A fraction of two integers. It stands for a number only where `den` is
/// positive.
pub struct Ratio {
    pub num: int,
    pub den: int,
}

/// The fraction `num / den`.
pub open spec fn ratio(num: int, den: int) -> Ratio {
    Ratio { num, den }
}

impl Ratio {
    /// The sum of two fractions.
    pub open spec fn plus(self, other: Ratio) -> Ratio {
        Ratio { num: self.num * other.den + other.num * self.den, den: self.den * other.den }
    }

    /// The difference of two fractions.
    pub open spec fn minus(self, other: Ratio) -> Ratio {
        Ratio { num: self.num * other.den - other.num * self.den, den: self.den * other.den }
    }

    /// The product of two fractions.
    pub open spec fn times(self, other: Ratio) -> Ratio {
        Ratio { num: self.num * other.num, den: self.den * other.den }
    }

    /// The largest integer that is not above the fraction.
    pub open spec fn floor(self) -> int {
        self.num / self.den
    }

    /// Whether the fraction is the number `v / w`.
    pub open spec fn equals(self, v: int, w: int) -> bool {
        self.den > 0 && w > 0 && self.num * w == v * self.den
    }
}

/// The value of `c + u * inner`, with `u = t / g`, over the denominator
/// `g * w`.
pub proof fn lemma_nest_plus(
    c: Ratio,
    inner: Ratio,
    p: int,
    t: int,
    g: int,
    v: int,
    w: int,
    gw: int,
)
    requires
        g > 0,
        gw == g * w,
        c.equals(p, gw),
        inner.equals(v, w),
    ensures
        c.plus(ratio(t, g).times(inner)).equals(p + t * v, gw),
{
    let x = ratio(t, g).times(inner);
    lemma_times(ratio(t, g), inner, t, g, v, w);
    lemma_plus(c, x, p, t * v, g * w);
}

/// The value of `c - u * inner`, with `u = t / g`, over the denominator
/// `g * w`.
pub proof fn lemma_nest_minus(
    c: Ratio,
    inner: Ratio,
    p: int,
    t: int,
    g: int,
    v: int,
    w: int,
    gw: int,
)
    requires
        g > 0,
        gw == g * w,
        c.equals(p, gw),
        inner.equals(v, w),
    ensures
        c.minus(ratio(t, g).times(inner)).equals(p - t * v, gw),
{
    let x = ratio(t, g).times(inner);
    lemma_times(ratio(t, g), inner, t, g, v, w);
    lemma_minus(c, x, p, t * v, g * w);
}

/// The product of two fractions is the product of the numbers they stand for.
pub proof fn lemma_times(a: Ratio, b: Ratio, av: int, aw: int, bv: int, bw: int)
    requires
        a.equals(av, aw),
        b.equals(bv, bw),
    ensures
        a.times(b).equals(av * bv, aw * bw),
{
    assert(a.den * b.den > 0) by (nonlinear_arith)
        requires
            a.den > 0,
            b.den > 0,
    ;
    assert(aw * bw > 0) by (nonlinear_arith)
        requires
            aw > 0,
            bw > 0,
    ;
    assert((a.num * b.num) * (aw * bw) == (av * bv) * (a.den * b.den)) by (nonlinear_arith)
        requires
            a.num * aw == av * a.den,
            b.num * bw == bv * b.den,
    ;
}

/// The sum of two fractions that stand for numbers over one denominator.
pub proof fn lemma_plus(a: Ratio, b: Ratio, av: int, bv: int, w: int)
    requires
        a.equals(av, w),
        b.equals(bv, w),
    ensures
        a.plus(b).equals(av + bv, w),
{
    assert(a.den * b.den > 0) by (nonlinear_arith)
        requires
            a.den > 0,
            b.den > 0,
    ;
    let x = a.num * w;
    let y = b.num * w;
    assert((a.num * b.den + b.num * a.den) * w == x * b.den + y * a.den) by (nonlinear_arith)
        requires
            x == a.num * w,
            y == b.num * w,
    ;
    assert((av + bv) * (a.den * b.den) == (av * a.den) * b.den + (bv * b.den) * a.den)
        by (nonlinear_arith);
}

/// The difference of two fractions that stand for numbers over one
/// denominator.
pub proof fn lemma_minus(a: Ratio, b: Ratio, av: int, bv: int, w: int)
    requires
        a.equals(av, w),
        b.equals(bv, w),
    ensures
        a.minus(b).equals(av - bv, w),
{
    assert(a.den * b.den > 0) by (nonlinear_arith)
        requires
            a.den > 0,
            b.den > 0,
    ;
    let x = a.num * w;
    let y = b.num * w;
    assert((a.num * b.den - b.num * a.den) * w == x * b.den - y * a.den) by (nonlinear_arith)
        requires
            x == a.num * w,
            y == b.num * w,
    ;
    assert((av - bv) * (a.den * b.den) == (av * a.den) * b.den - (bv * b.den) * a.den)
        by (nonlinear_arith);
}

/// Two fractions that stand for the same number have the same floor.
pub proof fn lemma_floor(a: Ratio, v: int, w: int)
    requires
        a.equals(v, w),
    ensures
        a.floor() == v / w,
{
    let q = v / w;
    let r = v % w;
    assert(v == q * w + r && 0 <= r < w) by (nonlinear_arith)
        requires
            w > 0,
            q == v / w,
            r == v % w,
    ;
    assert(q * a.den <= a.num < (q + 1) * a.den) by (nonlinear_arith)
        requires
            a.den > 0,
            w > 0,
            a.num * w == v * a.den,
            v == q * w + r,
            0 <= r < w,
    ;
    assert(a.num / a.den == q) by (nonlinear_arith)
        requires
            a.den > 0,
            q * a.den <= a.num < (q + 1) * a.den,
    ;
}

/// A fraction that is `v / w` is also `(v k) / (w k)`.
pub proof fn lemma_rescale(a: Ratio, v: int, w: int, k: int)
    requires
        a.equals(v, w),
        k > 0,
    ensures
        a.equals(v * k, w * k),
{
    assert(w * k > 0) by (nonlinear_arith)
        requires
            w > 0,
            k > 0,
    ;
    let x = a.num * w;
    assert(a.num * (w * k) == x * k) by (nonlinear_arith)
        requires
            x == a.num * w,
    ;
    assert((v * k) * a.den == (v * a.den) * k) by (nonlinear_arith);
}

/// The size of a product of two bounded numbers.
pub proof fn lemma_product_bound(t: int, v: int, tmax: int, vmax: int)
    requires
        -tmax <= t <= tmax,
        -vmax <= v <= vmax,
    ensures
        -(tmax * vmax) <= t * v <= tmax * vmax,
{
    assert(-(tmax * vmax) <= t * v <= tmax * vmax) by (nonlinear_arith)
        requires
            -tmax <= t <= tmax,
            -vmax <= v <= vmax,
    ;
}

} // verus!
