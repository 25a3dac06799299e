//! Fixed-point arithmetic helpers: truncating (round-toward-zero) division,
//! as the executable code performs it, together with its specification-level
//! mirror.

use vstd::prelude::*;
use crate::config::SCALE;

verus! {

/// Division with truncation toward zero (the semantics of `/` on machine
/// integers), defined for positive divisors.  For a nonnegative dividend it
/// agrees with Euclidean division.
pub open spec fn tdiv(a: int, b: int) -> int
    recommends
        b > 0,
{
    if a >= 0 {
        a / b
    } else {
        -((-a) / b)
    }
}

/// For a nonnegative `x` and a factor `f` no larger than the divisor `s`,
/// the scaled product `(x * f) / s` stays within `[0, x]`.
pub proof fn lemma_scaled_product_le(x: int, f: int, s: int)
    requires
        0 <= x,
        0 <= f <= s,
        0 < s,
    ensures
        0 <= (x * f) / s <= x,
{
    assert(0 <= x * f <= x * s) by (nonlinear_arith)
        requires
            0 <= x,
            0 <= f <= s;
    vstd::arithmetic::div_mod::lemma_div_pos_is_pos(x * f, s);
    vstd::arithmetic::div_mod::lemma_div_is_ordered(x * f, x * s, s);
    vstd::arithmetic::div_mod::lemma_div_multiples_vanish(x, s);
    assert(x * s == s * x) by (nonlinear_arith);
}

/// Discounting cannot enlarge a value: for a factor `0 <= g <= s`, the
/// scaled product `tdiv(g * v, s)` keeps any symmetric bound on `v`.
pub proof fn lemma_discount_bound(g: int, v: int, s: int, bound: int)
    requires
        0 <= g <= s,
        0 < s,
        -bound <= v <= bound,
        0 <= bound,
    ensures
        -bound <= tdiv(g * v, s) <= bound,
{
    if v >= 0 {
        lemma_scaled_product_le(v, g, s);
        assert(g * v == v * g) by (nonlinear_arith);
        assert(g * v >= 0) by (nonlinear_arith)
            requires
                0 <= g,
                0 <= v;
    } else {
        lemma_scaled_product_le(-v, g, s);
        assert(-(g * v) == (-v) * g) by (nonlinear_arith);
        assert(g * v <= 0) by (nonlinear_arith)
            requires
                0 <= g,
                v <= 0;
    }
}

/// Truncating division of an `i64` by `SCALE`.
pub fn div_scale_i64(a: i64) -> (r: i64)
    requires
        a > i64::MIN,
    ensures
        r == tdiv(a as int, SCALE as int),
        a >= 0 ==> 0 <= r <= a,
        a < 0 ==> a <= r <= 0,
{
    if a >= 0 {
        let q: u64 = (a as u64) / 1_000_000u64;
        proof {
            assert(a as u64 == a as int);
            assert(q <= a as u64) by (nonlinear_arith)
                requires q == (a as u64) / 1_000_000u64;
        }
        q as i64
    } else {
        let n: u64 = ((-a) as u64) / 1_000_000u64;
        proof {
            assert((-a) as u64 == -(a as int));
            assert(n <= (-a) as u64) by (nonlinear_arith)
                requires n == ((-a) as u64) / 1_000_000u64;
        }
        -(n as i64)
    }
}

/// Truncating division of an `i128` by a positive `u64` divisor.
pub fn div_pos_i128(a: i128, b: u64) -> (r: i128)
    requires
        a > i128::MIN,
        b > 0,
    ensures
        r == tdiv(a as int, b as int),
        a >= 0 ==> 0 <= r <= a,
        a < 0 ==> a <= r <= 0,
{
    if a >= 0 {
        let q: u128 = (a as u128) / (b as u128);
        proof {
            assert(a as u128 == a as int);
            assert(b as u128 == b as int);
            assert(q <= a as u128) by (nonlinear_arith)
                requires
                    q == (a as u128) / (b as u128),
                    b as u128 >= 1;
        }
        q as i128
    } else {
        let n: u128 = ((-a) as u128) / (b as u128);
        proof {
            assert((-a) as u128 == -(a as int));
            assert(b as u128 == b as int);
            assert(n <= (-a) as u128) by (nonlinear_arith)
                requires
                    n == ((-a) as u128) / (b as u128),
                    b as u128 >= 1;
        }
        -(n as i128)
    }
}

} // verus!
