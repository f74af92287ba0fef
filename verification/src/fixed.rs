//! Fixed-point helpers: floor division and scaled multiplication on `i128`.

use vstd::prelude::*;
use vstd::arithmetic::div_mod::lemma_fundamental_div_mod_converse;

verus! {

/// The fixed-point representation of the number one.
pub const UNIT: i128 = 1_000_000_000_000;

/// Largest magnitude accepted for either factor of a scaled product.
pub const FACTOR_LIMIT: i128 = 1_000_000_000_000_000_000;

/// The product of two fixed-point factors, rounded towards minus infinity.
pub open spec fn scaled_spec(c: int, x: int) -> int {
    (c * x) / (UNIT as int)
}

/// Floor division: the quotient rounded towards minus infinity.
pub fn div_floor(a: i128, d: i128) -> (q: i128)
    requires
        d > 0,
    ensures
        q == (a as int) / (d as int),
{
    if a >= 0 {
        a / d
    } else {
        let n: i128 = -(a + 1);
        let m: i128 = n / d;
        proof {
            let r: int = (n as int) % (d as int);
            assert(n as int == (d as int) * (m as int) + r) by {
                vstd::arithmetic::div_mod::lemma_fundamental_div_mod(n as int, d as int);
            }
            assert(a as int == (-(m as int) - 1) * (d as int) + ((d as int) - 1 - r)) by (nonlinear_arith)
                requires
                    n as int == (d as int) * (m as int) + r,
                    a as int == -(n as int) - 1,
            ;
            lemma_fundamental_div_mod_converse(a as int, d as int, -(m as int) - 1, (d as int) - 1 - r);
        }
        -m - 1
    }
}

/// Floor remainder: the non-negative remainder that goes with `div_floor`.
pub fn rem_floor(a: i128, d: i128) -> (r: i128)
    requires
        d > 0,
    ensures
        r == (a as int) % (d as int),
        0 <= r < d,
{
    if a >= 0 {
        a % d
    } else {
        let n: i128 = -(a + 1);
        let m: i128 = n % d;
        proof {
            let q: int = (n as int) / (d as int);
            assert(n as int == (d as int) * q + (m as int)) by {
                vstd::arithmetic::div_mod::lemma_fundamental_div_mod(n as int, d as int);
            }
            assert(a as int == (-q - 1) * (d as int) + ((d as int) - 1 - (m as int))) by (nonlinear_arith)
                requires
                    n as int == (d as int) * q + (m as int),
                    a as int == -(n as int) - 1,
            ;
            lemma_fundamental_div_mod_converse(a as int, d as int, -q - 1, (d as int) - 1 - (m as int));
        }
        d - 1 - m
    }
}

/// A product and its bounds: both factors bounded in magnitude bound the product.
pub proof fn lemma_product_bounds(c: int, x: int, cb: int, xb: int)
    requires
        -cb <= c <= cb,
        -xb <= x <= xb,
    ensures
        -(cb * xb) <= c * x <= cb * xb,
{
    assert(-(cb * xb) <= c * x <= cb * xb) by (nonlinear_arith)
        requires
            -cb <= c <= cb,
            -xb <= x <= xb,
    ;
}

/// Multiplies two fixed-point numbers.
pub fn scaled(c: i128, x: i128) -> (r: i128)
    requires
        -FACTOR_LIMIT <= c <= FACTOR_LIMIT,
        -FACTOR_LIMIT <= x <= FACTOR_LIMIT,
    ensures
        r == scaled_spec(c as int, x as int),
{
    proof {
        lemma_product_bounds(c as int, x as int, FACTOR_LIMIT as int, FACTOR_LIMIT as int);
    }
    div_floor(c * x, UNIT)
}

/// A scaled product is bounded by one factor's bound when the other is at
/// most one in magnitude.
pub proof fn lemma_scaled_by_fraction(c: int, x: int, cb: int)
    requires
        -cb <= c <= cb,
        -(UNIT as int) <= x <= UNIT as int,
    ensures
        -cb <= scaled_spec(c, x) <= cb,
{
    lemma_product_bounds(c, x, cb, UNIT as int);
}

/// A scaled product of a bounded factor with a bounded multiple of one.
pub proof fn lemma_scaled_bounds(c: int, x: int, cb: int, xn: int)
    requires
        -cb <= c <= cb,
        0 <= xn,
        -(xn * UNIT) <= x <= xn * UNIT,
    ensures
        -(cb * xn) <= scaled_spec(c, x) <= cb * xn,
{
    lemma_product_bounds(c, x, cb, xn * UNIT);
    assert(cb * (xn * UNIT) == (cb * xn) * UNIT) by (nonlinear_arith);
}

/// Two scaled products with one factor in common differ by no more than
/// the product of that factor's bound and the other factors' distance,
/// and one for the rounding.
pub proof fn lemma_scaled_step(c: int, x1: int, x2: int, cb: int, d: int)
    requires
        -cb <= c <= cb,
        -d <= x2 - x1 <= d,
    ensures
        -((cb * d) / (UNIT as int)) - 1 <= scaled_spec(c, x2) - scaled_spec(c, x1) <= (cb * d) / (
            UNIT as int
        ) + 1,
{
    lemma_product_bounds(c, x2 - x1, cb, d);
    assert(c * x2 - c * x1 == c * (x2 - x1)) by (nonlinear_arith);
}

} // verus!
