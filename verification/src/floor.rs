//! Division that rounds down.

use vstd::prelude::*;

verus! {

/// The quotient rounded towards minus infinity.
pub(crate) fn floor_div(a: i128, b: i128) -> (q: i128)
    requires
        0 < b,
    ensures
        q == a as int / b as int,
{
    let q: i128 = a / b;
    let r: i128 = a % b;
    proof {
        assert(a == q * b + r) by (nonlinear_arith)
            requires
                b > 0,
                a >= 0 ==> q == a as int / b as int && r == a as int % (b as int),
                a < 0 ==> q == -((-a) / b as int) && r == -((-a) % (b as int)),
        ;
        if r < 0 {
            assert(q > i128::MIN) by (nonlinear_arith)
                requires
                    b > 0,
                    a == q * b + r,
                    r < 0,
                    a >= i128::MIN,
                    q >= i128::MIN,
            ;
            assert(a as int / b as int == q - 1) by (nonlinear_arith)
                requires
                    b > 0,
                    a == q * b + r,
                    -b < r < 0,
            ;
        } else {
            assert(a as int / b as int == q) by (nonlinear_arith)
                requires
                    b > 0,
                    a == q * b + r,
                    0 <= r < b,
            ;
        }
    }
    if r < 0 {
        q - 1
    } else {
        q
    }
}

} // verus!
