//! The integer arithmetic behind the fixed-point numbers: saturation, division
//! that rounds toward zero, and the square root rounded down.

use vstd::prelude::*;
use crate::scalar::MAX_RAW;
use crate::scalar::MIN_RAW;

verus! {

/// The nearest representable raw value to `v`.
pub open spec fn saturate(v: int) -> int {
    if v < MIN_RAW {
        MIN_RAW as int
    } else if v > MAX_RAW {
        MAX_RAW as int
    } else {
        v
    }
}

/// Absolute value of an integer.
pub open spec fn magnitude(v: int) -> int {
    if v < 0 {
        -v
    } else {
        v
    }
}

/// `m` with a minus sign when `negative` holds.
pub open spec fn with_sign(negative: bool, m: int) -> int {
    if negative {
        -m
    } else {
        m
    }
}

/// `n / d` rounded toward zero, for a nonzero `d`.
pub open spec fn quot_toward_zero(n: int, d: int) -> int {
    with_sign((n < 0) != (d < 0), magnitude(n) / magnitude(d))
}

/// `r` is the integer square root of `n`, rounded down.
pub open spec fn is_floor_sqrt(n: int, r: int) -> bool {
    0 <= r && r * r <= n < (r + 1) * (r + 1)
}

/// The integer square root of a nonnegative `n`, rounded down.
pub open spec fn floor_sqrt(n: int) -> int {
    choose|r: int| is_floor_sqrt(n, r)
}

/// There is one rounded-down root only, so whichever value brackets `n` is it.
pub proof fn lemma_floor_sqrt_unique(n: int, r: int)
    requires
        is_floor_sqrt(n, r),
    ensures
        floor_sqrt(n) == r,
{
    let s = floor_sqrt(n);
    assert(is_floor_sqrt(n, s));
    assert(s == r) by (nonlinear_arith)
        requires
            0 <= r,
            0 <= s,
            r * r <= n,
            n < (r + 1) * (r + 1),
            s * s <= n,
            n < (s + 1) * (s + 1),
    {
        if s < r {
            assert((s + 1) * (s + 1) <= r * r);
        }
        if r < s {
            assert((r + 1) * (r + 1) <= s * s);
        }
    }
}

/// Every nonnegative integer has a rounded-down root.
pub proof fn lemma_floor_sqrt_exists(n: int)
    requires
        0 <= n,
    ensures
        is_floor_sqrt(n, floor_sqrt(n)),
    decreases n,
{
    if n == 0 {
        assert(is_floor_sqrt(0, 0));
    } else {
        lemma_floor_sqrt_exists(n - 1);
        let r = floor_sqrt(n - 1);
        if (r + 1) * (r + 1) <= n {
            assert(is_floor_sqrt(n, r + 1)) by (nonlinear_arith)
                requires
                    0 <= r,
                    r * r <= n - 1,
                    n - 1 < (r + 1) * (r + 1),
                    (r + 1) * (r + 1) <= n,
            ;
        } else {
            assert(is_floor_sqrt(n, r));
        }
    }
}

/// A root lies below any bound whose square lies above the radicand.
pub proof fn lemma_floor_sqrt_bound(n: int, bound: int)
    requires
        0 <= n < bound * bound,
        0 <= bound,
    ensures
        0 <= floor_sqrt(n) < bound,
        is_floor_sqrt(n, floor_sqrt(n)),
{
    lemma_floor_sqrt_exists(n);
    let s = floor_sqrt(n);
    assert(s < bound) by (nonlinear_arith)
        requires
            0 <= s,
            0 <= bound,
            s * s <= n,
            n < bound * bound,
    {
        if bound <= s {
            assert(bound * bound <= s * s);
        }
    }
}

/// The integer square root of `n`, rounded down, by bisection.
pub fn floor_sqrt_of(n: u128) -> (r: u64)
    ensures
        is_floor_sqrt(n as int, r as int),
        r as int == floor_sqrt(n as int),
{
    let mut lo: u128 = 0;
    let mut hi: u128 = 0x1_0000_0000_0000_0000u128;
    assert(hi * hi > u128::MAX) by (nonlinear_arith)
        requires
            hi == 0x1_0000_0000_0000_0000u128,
    ;
    while hi - lo > 1
        invariant
            lo < hi <= 0x1_0000_0000_0000_0000u128,
            lo * lo <= n < hi * hi,
        decreases hi - lo,
    {
        let mid: u128 = lo + (hi - lo) / 2;
        assert(mid * mid <= u128::MAX) by (nonlinear_arith)
            requires
                mid < 0x1_0000_0000_0000_0000u128,
        ;
        if mid * mid <= n {
            lo = mid;
        } else {
            hi = mid;
        }
    }
    proof {
        lemma_floor_sqrt_unique(n as int, lo as int);
    }
    lo as u64
}

/// The magnitude of a product is the product of the magnitudes, and its sign
/// is the exclusive or of the signs.
pub proof fn lemma_product_sign(a: int, b: int)
    ensures
        magnitude(a * b) == magnitude(a) * magnitude(b),
        (a * b < 0) == ((a < 0) != (b < 0) && a != 0 && b != 0),
{
    assert(magnitude(a * b) == magnitude(a) * magnitude(b)) by (nonlinear_arith);
    assert((a * b < 0) == ((a < 0) != (b < 0) && a != 0 && b != 0)) by (nonlinear_arith);
}

/// A quotient rounded toward zero misses the true quotient by less than one.
pub proof fn lemma_quot_bracket(n: int, d: int)
    requires
        0 < d,
    ensures
        -d < n - quot_toward_zero(n, d) * d < d,
        n >= 0 ==> 0 <= n - quot_toward_zero(n, d) * d,
        n <= 0 ==> n - quot_toward_zero(n, d) * d <= 0,
{
    if n >= 0 {
        vstd::arithmetic::div_mod::lemma_fundamental_div_mod(n, d);
        vstd::arithmetic::div_mod::lemma_mod_bound(n, d);
        assert((n / d) * d == d * (n / d)) by (nonlinear_arith);
    } else {
        vstd::arithmetic::div_mod::lemma_fundamental_div_mod(-n, d);
        vstd::arithmetic::div_mod::lemma_mod_bound(-n, d);
        assert((-((-n) / d)) * d == -(d * ((-n) / d))) by (nonlinear_arith);
    }
}

/// Rounding toward zero keeps the order of the numerators over one positive
/// denominator.
pub proof fn lemma_quot_monotone(p: int, q: int, d: int)
    requires
        p <= q,
        0 < d,
    ensures
        quot_toward_zero(p, d) <= quot_toward_zero(q, d),
{
    if p >= 0 {
        vstd::arithmetic::div_mod::lemma_div_is_ordered(p, q, d);
    } else if q < 0 {
        vstd::arithmetic::div_mod::lemma_div_is_ordered(-q, -p, d);
    } else {
        vstd::arithmetic::div_mod::lemma_div_pos_is_pos(-p, d);
        vstd::arithmetic::div_mod::lemma_div_pos_is_pos(q, d);
    }
}

/// A multiple of the divisor is divided without rounding.
pub proof fn lemma_quot_of_multiple(k: int, d: int)
    requires
        0 < d,
    ensures
        quot_toward_zero(k * d, d) == k,
{
    if k >= 0 {
        assert(0 <= k * d) by (nonlinear_arith)
            requires
                0 <= k,
                0 < d,
        ;
        vstd::arithmetic::div_mod::lemma_div_by_multiple(k, d);
        assert(k * d == d * k) by (nonlinear_arith);
    } else {
        assert(k * d < 0 && -(k * d) == (-k) * d) by (nonlinear_arith)
            requires
                k < 0,
                0 < d,
        ;
        vstd::arithmetic::div_mod::lemma_div_by_multiple(-k, d);
        assert((-k) * d == d * (-k)) by (nonlinear_arith);
    }
}

/// The quotient of a sum, rounded toward zero, is within one of the sum of
/// the quotients.
pub proof fn lemma_quot_of_sum(a: int, b: int, d: int)
    requires
        0 < d,
    ensures
        -1 <= quot_toward_zero(a + b, d) - (quot_toward_zero(a, d) + quot_toward_zero(b, d)) <= 1,
{
    lemma_quot_bracket(a, d);
    lemma_quot_bracket(b, d);
    lemma_quot_bracket(a + b, d);
    let qa = quot_toward_zero(a, d);
    let qb = quot_toward_zero(b, d);
    let qs = quot_toward_zero(a + b, d);
    let k = qs - (qa + qb);
    let rest = (a - qa * d) + (b - qb * d) - ((a + b) - qs * d);
    assert(k * d == rest) by (nonlinear_arith)
        requires
            k == qs - (qa + qb),
            rest == (a - qa * d) + (b - qb * d) - ((a + b) - qs * d),
    ;
    assert(-2 * d < rest < 2 * d);
    assert(-1 <= k <= 1) by (nonlinear_arith)
        requires
            0 < d,
            -2 * d < k * d < 2 * d,
    ;
}

} // verus!
