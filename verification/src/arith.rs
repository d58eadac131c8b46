//! Integer arithmetic as the contract does it: 128-bit, truncating division.

use vstd::prelude::*;

verus! {

/// Whether the number fits in an `i128`.
pub open spec fn fits(x: int) -> bool {
    i128::MIN <= x <= i128::MAX
}

/// The quotient `x / d`, rounded towards zero.
pub open spec fn quotient(x: int, d: int) -> int {
    if x >= 0 && d > 0 {
        x / d
    } else if x < 0 && d > 0 {
        -((-x) / d)
    } else if x >= 0 {
        -(x / (-d))
    } else {
        (-x) / (-d)
    }
}

/// A quotient by a positive divisor is no further from zero than the dividend,
/// and has its sign.
pub proof fn quotient_is_bounded(x: int, d: int)
    requires
        d > 0,
    ensures
        x >= 0 ==> 0 <= quotient(x, d) <= x,
        x < 0 ==> x <= quotient(x, d) <= 0,
{
    let a = if x >= 0 { x } else { -x };
    assert(0 <= a / d <= a) by (nonlinear_arith)
        requires
            d > 0,
            a >= 0,
    ;
}

/// Times the divisor, a quotient falls short of the dividend by less than the
/// divisor, and never goes past it on either side of zero.
pub proof fn quotient_rounds_towards_zero(x: int, d: int)
    requires
        d != 0,
    ensures
        x >= 0 ==> 0 <= x - quotient(x, d) * d < (if d > 0 { d } else { -d }),
        x <= 0 ==> 0 <= quotient(x, d) * d - x < (if d > 0 { d } else { -d }),
{
    let a = if x >= 0 { x } else { -x };
    let b = if d > 0 { d } else { -d };
    let q = a / b;
    assert(0 <= a - q * b < b) by (nonlinear_arith)
        requires
            b > 0,
            q == a / b,
    ;
    assert((-q) * b == -(q * b)) by (nonlinear_arith);
    assert(q * (-b) == -(q * b)) by (nonlinear_arith);
    assert((-q) * (-b) == q * b) by (nonlinear_arith);
}

/// `x / d`, rounded towards zero.
pub fn divide(x: i128, d: i128) -> (q: i128)
    requires
        d > 0,
    ensures
        q == quotient(x as int, d as int),
{
    proof {
        quotient_is_bounded(x as int, d as int);
    }
    match x.checked_div(d) {
        Some(q) => q,
        None => 0,
    }
}

/// The part `x * rate / base`, or `None` where the product does not fit.
pub fn portion(x: i128, rate: i128, base: i128) -> (part: Option<i128>)
    requires
        base > 0,
    ensures
        part == (if fits(x * rate) {
            Some(quotient(x * rate, base as int) as i128)
        } else {
            None::<i128>
        }),
        fits(x * rate) ==> fits(quotient(x * rate, base as int)),
{
    match x.checked_mul(rate) {
        Some(product) => {
            proof {
                quotient_is_bounded(product as int, base as int);
            }
            Some(divide(product, base))
        },
        None => None,
    }
}

} // verus!
