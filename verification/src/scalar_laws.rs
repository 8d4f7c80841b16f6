//! What holds of the arithmetic of scalars.

use vstd::prelude::*;
use crate::arith::is_floor_sqrt;
use crate::arith::lemma_floor_sqrt_bound;
use crate::arith::lemma_quot_bracket;
use crate::arith::lemma_quot_monotone;
use crate::arith::lemma_quot_of_multiple;
use crate::arith::lemma_quot_of_sum;
use crate::arith::magnitude;
use crate::arith::quot_toward_zero;
use crate::arith::saturate;
use crate::scalar::MAX_RAW;
use crate::scalar::MIN_RAW;
use crate::scalar::MODERATE_RAW;
use crate::scalar::Scalar;
use crate::scalar::SCALE;
use crate::scalar::SERIES_DEPTH;

verus! {

/// A product of two factors within given bounds is not saturated, and lies
/// within the bound that the bounds of the factors give.
pub proof fn lemma_mul_bounded(a: Scalar, b: Scalar, bound_a: int, bound_b: int, bound: int)
    requires
        -bound_a <= a.raw <= bound_a,
        -bound_b <= b.raw <= bound_b,
        bound_a * bound_b <= bound * SCALE,
        0 <= bound <= MAX_RAW,
    ensures
        a.spec_mul(b).raw == quot_toward_zero(a.raw * b.raw, SCALE as int),
        -bound <= a.spec_mul(b).raw <= bound,
{
    let p = a.raw * b.raw;
    assert(-(bound * SCALE) <= p <= bound * SCALE) by (nonlinear_arith)
        requires
            p == a.raw * b.raw,
            -bound_a <= a.raw <= bound_a,
            -bound_b <= b.raw <= bound_b,
            bound_a * bound_b <= bound * SCALE,
    ;
    lemma_quot_of_multiple(bound, SCALE as int);
    lemma_quot_of_multiple(-bound, SCALE as int);
    assert((-bound) * SCALE == -(bound * SCALE)) by (nonlinear_arith);
    lemma_quot_monotone(p, bound * SCALE, SCALE as int);
    lemma_quot_monotone(-(bound * SCALE), p, SCALE as int);
}

/// The product fits the range without saturating.
pub open spec fn product_fits(a: Scalar, b: Scalar) -> bool {
    MIN_RAW <= quot_toward_zero(a.raw * b.raw, SCALE as int) <= MAX_RAW
}

/// A sum does not depend on the order of its terms.
pub proof fn lemma_add_commutes(a: Scalar, b: Scalar)
    ensures
        a.spec_add(b) == b.spec_add(a),
{
}

/// A product does not depend on the order of its factors.
pub proof fn lemma_mul_commutes(a: Scalar, b: Scalar)
    ensures
        a.spec_mul(b) == b.spec_mul(a),
{
    assert(a.raw * b.raw == b.raw * a.raw) by (nonlinear_arith);
}

/// Zero times anything is zero.
pub proof fn lemma_mul_zero(x: Scalar)
    ensures
        x.spec_mul(Scalar::spec_zero()).raw == 0,
        Scalar::spec_zero().spec_mul(x).raw == 0,
{
    assert(x.raw * 0 == 0);
    assert(0 * x.raw == 0);
}

/// One times anything is that thing.
pub proof fn lemma_mul_one(x: Scalar)
    ensures
        x.spec_mul(Scalar::spec_one()) == x,
        Scalar::spec_one().spec_mul(x) == x,
{
    lemma_quot_of_multiple(x.raw as int, SCALE as int);
    lemma_mul_commutes(x, Scalar { raw: SCALE });
}

/// Times a whole number, a scalar is multiplied without rounding.
pub proof fn lemma_mul_whole(x: Scalar, n: int)
    requires
        -2147483648 <= n <= 2147483647,
    ensures
        x.spec_mul(Scalar::spec_from_int(n)).raw == saturate(x.raw * n),
{
    let whole = Scalar::spec_from_int(n);
    assert(whole.raw == n * SCALE);
    assert(x.raw * whole.raw == (x.raw * n) * SCALE) by (nonlinear_arith)
        requires
            whole.raw == n * SCALE,
    ;
    lemma_quot_of_multiple(x.raw * n, SCALE as int);
}

/// The product of two scalars of magnitude up to `32768` stays in range.
pub proof fn lemma_mul_in_range(a: Scalar, b: Scalar)
    requires
        -2 * MODERATE_RAW <= a.raw <= 2 * MODERATE_RAW,
        -2 * MODERATE_RAW <= b.raw <= 2 * MODERATE_RAW,
    ensures
        a.spec_mul(b).raw == quot_toward_zero(a.raw * b.raw, SCALE as int),
        -0x4000_0000_0000_0000 <= a.spec_mul(b).raw <= 0x4000_0000_0000_0000,
{
    let p = a.raw * b.raw;
    let top = 0x4000_0000_0000_0000int;
    assert(-(top * SCALE) <= p <= top * SCALE) by (nonlinear_arith)
        requires
            p == a.raw * b.raw,
            -0x8000_0000_0000 <= a.raw <= 0x8000_0000_0000,
            -0x8000_0000_0000 <= b.raw <= 0x8000_0000_0000,
            top == 0x4000_0000_0000_0000int,
            SCALE == 4294967296,
    ;
    lemma_quot_of_multiple(top, SCALE as int);
    lemma_quot_of_multiple(-top, SCALE as int);
    assert((-top) * SCALE == -(top * SCALE)) by (nonlinear_arith);
    lemma_quot_monotone(p, top * SCALE, SCALE as int);
    lemma_quot_monotone(-(top * SCALE), p, SCALE as int);
}

/// The product of two scalars of moderate size is a scalar of magnitude at
/// most `2^28`, and turning the sign of one factor turns the sign of the
/// product.
pub proof fn lemma_mul_moderate(a: Scalar, b: Scalar)
    requires
        a.spec_moderate(),
        b.spec_moderate(),
    ensures
        a.spec_mul(b).raw == quot_toward_zero(a.raw * b.raw, SCALE as int),
        -0x1000_0000_0000_0000 <= a.spec_mul(b).raw <= 0x1000_0000_0000_0000,
        a.spec_mul(b.spec_neg()).raw == -a.spec_mul(b).raw,
{
    let p = a.raw * b.raw;
    let top = 0x1000_0000_0000_0000int;
    assert(-(top * SCALE) <= p <= top * SCALE) by (nonlinear_arith)
        requires
            p == a.raw * b.raw,
            -0x4000_0000_0000 <= a.raw <= 0x4000_0000_0000,
            -0x4000_0000_0000 <= b.raw <= 0x4000_0000_0000,
            top == 0x1000_0000_0000_0000int,
            SCALE == 4294967296,
    ;
    lemma_quot_of_multiple(top, SCALE as int);
    lemma_quot_of_multiple(-top, SCALE as int);
    assert((-top) * SCALE == -(top * SCALE)) by (nonlinear_arith);
    lemma_quot_monotone(p, top * SCALE, SCALE as int);
    lemma_quot_monotone(-(top * SCALE), p, SCALE as int);
    assert(a.raw * (-b.raw) == -p) by (nonlinear_arith)
        requires
            p == a.raw * b.raw,
    ;
    if p == 0 {
        assert(quot_toward_zero(0, SCALE as int) == 0);
    }
}

/// The product with a sum is within one raw unit of the sum of the products,
/// where nothing leaves the range.
pub proof fn lemma_mul_distributes_within_one(d: Scalar, s: Scalar, t: Scalar)
    requires
        MIN_RAW <= s.raw + t.raw <= MAX_RAW,
        MIN_RAW <= quot_toward_zero(d.raw * s.raw, SCALE as int) <= MAX_RAW,
        MIN_RAW <= quot_toward_zero(d.raw * t.raw, SCALE as int) <= MAX_RAW,
        MIN_RAW <= quot_toward_zero(d.raw * (s.raw + t.raw), SCALE as int) <= MAX_RAW,
    ensures
        -1 <= d.spec_mul(s.spec_add(t)).raw - (d.spec_mul(s).raw + d.spec_mul(t).raw) <= 1,
{
    assert(d.raw * (s.raw + t.raw) == d.raw * s.raw + d.raw * t.raw) by (nonlinear_arith);
    lemma_quot_of_sum(d.raw * s.raw, d.raw * t.raw, SCALE as int);
}

/// `(x * s) * t` and `x * (s * t)` agree up to rounding, where no product
/// leaves the range: they differ by less than two raw units more than the
/// magnitudes of `t` and `x` taken together as plain numbers.
pub proof fn lemma_mul_associates_within(x: Scalar, s: Scalar, t: Scalar)
    requires
        product_fits(x, s),
        product_fits(x.spec_mul(s), t),
        product_fits(s, t),
        product_fits(x, s.spec_mul(t)),
    ensures
        (magnitude(x.spec_mul(s).spec_mul(t).raw - x.spec_mul(s.spec_mul(t)).raw) - 2) * SCALE
            < magnitude(t.raw as int) + magnitude(x.raw as int),
{
    let d = SCALE as int;
    let a = x.spec_mul(s).raw as int;
    let l = x.spec_mul(s).spec_mul(t).raw as int;
    let b = s.spec_mul(t).raw as int;
    let r = x.spec_mul(s.spec_mul(t)).raw as int;
    lemma_quot_bracket(x.raw * s.raw, d);
    lemma_quot_bracket(a * t.raw, d);
    lemma_quot_bracket(s.raw * t.raw, d);
    lemma_quot_bracket(x.raw * b, d);
    let e1 = a * t.raw - l * d;
    let e2 = x.raw * s.raw - a * d;
    let e3 = x.raw * b - r * d;
    let e4 = s.raw * t.raw - b * d;
    let xr = x.raw as int;
    let tr = t.raw as int;
    let sr = s.raw as int;
    let ld = l * d;
    let ad = a * d;
    let rd = r * d;
    let bd = b * d;
    let triple = (xr * sr) * tr;
    assert(ld * d == ad * tr - e1 * d) by (nonlinear_arith)
        requires
            ld == a * tr - e1,
            ad == a * d,
    ;
    assert(ad * tr == triple - e2 * tr) by (nonlinear_arith)
        requires
            ad == xr * sr - e2,
            triple == (xr * sr) * tr,
    ;
    assert(rd * d == xr * bd - e3 * d) by (nonlinear_arith)
        requires
            rd == xr * b - e3,
            bd == b * d,
    ;
    assert(xr * bd == triple - e4 * xr) by (nonlinear_arith)
        requires
            bd == sr * tr - e4,
            triple == (xr * sr) * tr,
    ;
    assert((l - r) * d * d == ld * d - rd * d) by (nonlinear_arith)
        requires
            ld == l * d,
            rd == r * d,
    ;
    assert((e3 - e1) * d == e3 * d - e1 * d) by (nonlinear_arith);
    assert((l - r) * d * d == e4 * xr - e2 * tr + (e3 - e1) * d);
    let mx = magnitude(xr);
    let mt = magnitude(tr);
    assert(-(d * mx) <= e4 * xr <= d * mx) by (nonlinear_arith)
        requires
            -d < e4 < d,
            mx == xr || mx == -xr,
            0 <= mx,
    ;
    assert(-(d * mt) <= e2 * tr <= d * mt) by (nonlinear_arith)
        requires
            -d < e2 < d,
            mt == tr || mt == -tr,
            0 <= mt,
    ;
    assert(-(2 * d * d) < (e3 - e1) * d < 2 * d * d) by (nonlinear_arith)
        requires
            -d < e1 < d,
            -d < e3 < d,
            0 < d,
    ;
    let k = l - r;
    assert((magnitude(k) - 2) * d < mt + mx) by (nonlinear_arith)
        requires
            k * d * d == e4 * xr - e2 * tr + (e3 - e1) * d,
            -(d * mx) <= e4 * xr <= d * mx,
            -(d * mt) <= e2 * tr <= d * mt,
            -(2 * d * d) < (e3 - e1) * d < 2 * d * d,
            0 < d,
    {
        assert(-(d * (mx + mt + 2 * d)) < k * d * d < d * (mx + mt + 2 * d));
        assert(-(mx + mt + 2 * d) < k * d < mx + mt + 2 * d);
    }
}

/// Dividing by a scalar that is not negative keeps the order.
pub proof fn lemma_div_monotone(p: Scalar, q: Scalar, d: Scalar)
    requires
        p.raw <= q.raw,
        0 <= d.raw,
    ensures
        p.spec_div(d).raw <= q.spec_div(d).raw,
{
    if d.raw > 0 {
        lemma_quot_monotone(p.raw * SCALE, q.raw * SCALE, d.raw as int);
    }
}

/// A root is never negative, and it brackets its radicand.
pub proof fn lemma_sqrt_nonnegative(x: Scalar)
    ensures
        0 <= x.spec_sqrt().raw,
        x.raw > 0 ==> is_floor_sqrt(x.raw * SCALE, x.spec_sqrt().raw as int),
{
    if x.raw > 0 {
        assert(0x1_0000_0000_0000int * 0x1_0000_0000_0000int
            == 0x1_0000_0000_0000_0000_0000_0000int) by (nonlinear_arith);
        lemma_floor_sqrt_bound(x.raw * SCALE, 0x1_0000_0000_0000int);
    }
}

/// A fraction of a scalar that is not negative lies between zero and that
/// scalar, and short of it unless it is zero.
pub proof fn lemma_mul_by_fraction(d: Scalar, u: Scalar)
    requires
        0 <= d.raw,
        0 <= u.raw < SCALE,
    ensures
        0 <= d.spec_mul(u).raw <= d.raw,
        0 < d.raw ==> d.spec_mul(u).raw < d.raw,
{
    let p = d.raw * u.raw;
    assert(0 <= p && (0 < d.raw ==> p < d.raw * SCALE) && p <= d.raw * SCALE) by (nonlinear_arith)
        requires
            p == d.raw * u.raw,
            0 <= d.raw,
            0 <= u.raw < SCALE,
    ;
    lemma_quot_bracket(p, SCALE as int);
    let q = quot_toward_zero(p, SCALE as int);
    assert(0 <= q <= d.raw && (0 < d.raw ==> q < d.raw)) by (nonlinear_arith)
        requires
            0 <= p - q * SCALE < SCALE,
            0 <= p <= d.raw * SCALE,
            0 < d.raw ==> p < d.raw * SCALE,
            0 <= d.raw,
            SCALE == 4294967296,
    ;
}

/// The whole part of a scalar fits in 32 bits.
pub proof fn lemma_trunc_range(x: Scalar)
    ensures
        -2147483648 <= x.spec_trunc() <= 2147483647,
{
    lemma_quot_bracket(x.raw as int, SCALE as int);
}

/// Zero over anything is zero.
pub proof fn lemma_zero_div(d: Scalar)
    ensures
        Scalar::spec_zero().spec_div(d).raw == 0,
{
    if d.raw != 0 {
        assert(0 * SCALE == 0);
        vstd::arithmetic::div_mod::lemma_div_basics(magnitude(d.raw as int));
    }
}

/// At the angle zero every tail of the series is `1`.
pub proof fn lemma_series_at_zero(k: nat, depth: nat, shift: nat)
    ensures
        Scalar::spec_series(Scalar::spec_zero(), k, depth, shift) == Scalar::spec_one(),
    decreases depth + 1 - k,
{
    if k <= depth {
        lemma_series_at_zero(k + 1, depth, shift);
        lemma_zero_div(Scalar::spec_from_int((2 * k - 1 + shift) * (2 * k + shift)));
        lemma_mul_zero(Scalar::spec_one());
    }
}

/// The sine and the tangent of the angle zero are `0`, and its cosine is `1`.
pub proof fn lemma_trigonometry_at_zero()
    ensures
        Scalar::spec_zero().spec_sin().raw == 0,
        Scalar::spec_zero().spec_cos().raw == SCALE,
        Scalar::spec_zero().spec_tan().raw == 0,
{
    let zero = Scalar::spec_zero();
    lemma_mul_zero(zero);
    lemma_series_at_zero(1, SERIES_DEPTH as nat, 1);
    lemma_series_at_zero(1, SERIES_DEPTH as nat, 0);
    lemma_mul_zero(Scalar::spec_one());
    lemma_zero_div(Scalar::spec_one());
}

/// One term of the series, from the quotient and the tail behind it.
proof fn lemma_series_step(
    x2: Scalar,
    k: nat,
    depth: nat,
    shift: nat,
    b: int,
    denominator: int,
    q: int,
    tail: int,
    p: int,
    value: int,
)
    requires
        1 <= k <= depth,
        b == 2 * k - 1 + shift,
        denominator == b * (b + 1),
        x2.spec_div(Scalar::spec_from_int(denominator)).raw == q,
        Scalar::spec_series(x2, k + 1, depth, shift).raw == tail,
        quot_toward_zero(q * tail, SCALE as int) == p,
        MIN_RAW <= p <= MAX_RAW,
        value == SCALE - p,
        MIN_RAW <= value <= MAX_RAW,
    ensures
        Scalar::spec_series(x2, k, depth, shift).raw == value,
{
}

/// The tangent of half a right angle, which is half the default field of
/// view of a camera, is `1` within two raw units.
pub proof fn lemma_tangent_of_half_right_angle()
    ensures
        crate::spec_degrees_to_radians(Scalar::spec_from_int(90)).spec_div(
            Scalar::spec_from_int(2),
        ).raw == 3373259426,
        SCALE - 2 <= (Scalar { raw: 3373259426 }).spec_tan().raw <= SCALE,
        (Scalar { raw: 3373259426 }).spec_sin().raw == 3037000500,
        (Scalar { raw: 3373259426 }).spec_cos().raw == 3037000501,
{
    let x = Scalar { raw: 3373259426 };
    let x2 = x.spec_mul(x);
    assert(386547056640int * 13493037704int == 5215694009613743554560int);
    assert(5215694009613743554560int / 4294967296int == 1214373393360int);
    assert(Scalar::spec_from_int(90).spec_mul(Scalar { raw: 13493037704 }).raw == 1214373393360);
    assert(1214373393360int * 4294967296int == 5215694009613743554560int);
    assert(5215694009613743554560int / 773094113280int == 6746518852int);
    assert(crate::spec_degrees_to_radians(Scalar::spec_from_int(90)).raw == 6746518852);
    assert(6746518852int * 4294967296int == 28976077831187464192int);
    assert(28976077831187464192int / 8589934592int == 3373259426int);
    assert(crate::spec_degrees_to_radians(Scalar::spec_from_int(90)).spec_div(Scalar::spec_from_int(2)).raw == 3373259426);
    assert(3373259426int * 3373259426int == 11378879155097849476int);
    assert(11378879155097849476int / 4294967296int == 2649351757int);
    assert(x2.raw == 2649351757);
    assert(Scalar::spec_series(x2, 11, 10, 1).raw == 4294967296);
    assert(Scalar::spec_from_int(420).raw == 1803886264320);
    assert(2649351757int * 4294967296int == 11378879151915139072int);
    assert(11378879151915139072int / 1803886264320int == 6307980int);
    assert(x2.spec_div(Scalar::spec_from_int(420)).raw == 6307980);
    assert(6307980int * 4294967296int == 27092567803822080int);
    assert(27092567803822080int / 4294967296int == 6307980int);
    assert(20int * 21int == 420int);
    lemma_series_step(x2, 10, 10, 1, 20, 420, 6307980, 4294967296, 6307980, 4288659316);
    assert(Scalar::spec_from_int(342).raw == 1468878815232);
    assert(2649351757int * 4294967296int == 11378879151915139072int);
    assert(11378879151915139072int / 1468878815232int == 7746642int);
    assert(x2.spec_div(Scalar::spec_from_int(342)).raw == 7746642);
    assert(7746642int * 4288659316int == 33222708381016872int);
    assert(33222708381016872int / 4294967296int == 7735264int);
    assert(18int * 19int == 342int);
    lemma_series_step(x2, 9, 10, 1, 18, 342, 7746642, 4288659316, 7735264, 4287232032);
    assert(Scalar::spec_from_int(272).raw == 1168231104512);
    assert(2649351757int * 4294967296int == 11378879151915139072int);
    assert(11378879151915139072int / 1168231104512int == 9740263int);
    assert(x2.spec_div(Scalar::spec_from_int(272)).raw == 9740263);
    assert(9740263int * 4287232032int == 41758767533704416int);
    assert(41758767533704416int / 4294967296int == 9722720int);
    assert(16int * 17int == 272int);
    lemma_series_step(x2, 8, 10, 1, 16, 272, 9740263, 4287232032, 9722720, 4285244576);
    assert(Scalar::spec_from_int(210).raw == 901943132160);
    assert(2649351757int * 4294967296int == 11378879151915139072int);
    assert(11378879151915139072int / 901943132160int == 12615960int);
    assert(x2.spec_div(Scalar::spec_from_int(210)).raw == 12615960);
    assert(12615960int * 4285244576int == 54062474161032960int);
    assert(54062474161032960int / 4294967296int == 12587400int);
    assert(14int * 15int == 210int);
    lemma_series_step(x2, 7, 10, 1, 14, 210, 12615960, 4285244576, 12587400, 4282379896);
    assert(Scalar::spec_from_int(156).raw == 670014898176);
    assert(2649351757int * 4294967296int == 11378879151915139072int);
    assert(11378879151915139072int / 670014898176int == 16983024int);
    assert(x2.spec_div(Scalar::spec_from_int(156)).raw == 16983024);
    assert(16983024int * 4282379896int == 72727760550885504int);
    assert(72727760550885504int / 4294967296int == 16933251int);
    assert(12int * 13int == 156int);
    lemma_series_step(x2, 6, 10, 1, 12, 156, 16983024, 4282379896, 16933251, 4278034045);
    assert(Scalar::spec_from_int(110).raw == 472446402560);
    assert(2649351757int * 4294967296int == 11378879151915139072int);
    assert(11378879151915139072int / 472446402560int == 24085015int);
    assert(x2.spec_div(Scalar::spec_from_int(110)).raw == 24085015);
    assert(24085015int * 4278034045int == 103036514144335675int);
    assert(103036514144335675int / 4294967296int == 23990057int);
    assert(10int * 11int == 110int);
    lemma_series_step(x2, 5, 10, 1, 10, 110, 24085015, 4278034045, 23990057, 4270977239);
    assert(Scalar::spec_from_int(72).raw == 309237645312);
    assert(2649351757int * 4294967296int == 11378879151915139072int);
    assert(11378879151915139072int / 309237645312int == 36796552int);
    assert(x2.spec_div(Scalar::spec_from_int(72)).raw == 36796552);
    assert(36796552int * 4270977239int == 157157236065679928int);
    assert(157157236065679928int / 4294967296int == 36591020int);
    assert(8int * 9int == 72int);
    lemma_series_step(x2, 4, 10, 1, 8, 72, 36796552, 4270977239, 36591020, 4258376276);
    assert(Scalar::spec_from_int(42).raw == 180388626432);
    assert(2649351757int * 4294967296int == 11378879151915139072int);
    assert(11378879151915139072int / 180388626432int == 63079803int);
    assert(x2.spec_div(Scalar::spec_from_int(42)).raw == 63079803);
    assert(63079803int * 4258376276int == 268617536589953628int);
    assert(268617536589953628int / 4294967296int == 62542393int);
    assert(6int * 7int == 42int);
    lemma_series_step(x2, 3, 10, 1, 6, 42, 63079803, 4258376276, 62542393, 4232424903);
    assert(Scalar::spec_from_int(20).raw == 85899345920);
    assert(2649351757int * 4294967296int == 11378879151915139072int);
    assert(11378879151915139072int / 85899345920int == 132467587int);
    assert(x2.spec_div(Scalar::spec_from_int(20)).raw == 132467587);
    assert(132467587int * 4232424903int == 560659114059119061int);
    assert(560659114059119061int / 4294967296int == 130538622int);
    assert(4int * 5int == 20int);
    lemma_series_step(x2, 2, 10, 1, 4, 20, 132467587, 4232424903, 130538622, 4164428674);
    assert(Scalar::spec_from_int(6).raw == 25769803776);
    assert(2649351757int * 4294967296int == 11378879151915139072int);
    assert(11378879151915139072int / 25769803776int == 441558626int);
    assert(x2.spec_div(Scalar::spec_from_int(6)).raw == 441558626);
    assert(441558626int * 4164428674int == 1838839403366441924int);
    assert(1838839403366441924int / 4294967296int == 428138161int);
    assert(2int * 3int == 6int);
    lemma_series_step(x2, 1, 10, 1, 2, 6, 441558626, 4164428674, 428138161, 3866829135);
    assert(Scalar::spec_series(x2, 11, 10, 0).raw == 4294967296);
    assert(Scalar::spec_from_int(380).raw == 1632087572480);
    assert(2649351757int * 4294967296int == 11378879151915139072int);
    assert(11378879151915139072int / 1632087572480int == 6971978int);
    assert(x2.spec_div(Scalar::spec_from_int(380)).raw == 6971978);
    assert(6971978int * 4294967296int == 29944417498431488int);
    assert(29944417498431488int / 4294967296int == 6971978int);
    assert(19int * 20int == 380int);
    lemma_series_step(x2, 10, 10, 0, 19, 380, 6971978, 4294967296, 6971978, 4287995318);
    assert(Scalar::spec_from_int(306).raw == 1314259992576);
    assert(2649351757int * 4294967296int == 11378879151915139072int);
    assert(11378879151915139072int / 1314259992576int == 8658012int);
    assert(x2.spec_div(Scalar::spec_from_int(306)).raw == 8658012);
    assert(8658012int * 4287995318int == 37125514919187816int);
    assert(37125514919187816int / 4294967296int == 8643957int);
    assert(17int * 18int == 306int);
    lemma_series_step(x2, 9, 10, 0, 17, 306, 8658012, 4287995318, 8643957, 4286323339);
    assert(Scalar::spec_from_int(240).raw == 1030792151040);
    assert(2649351757int * 4294967296int == 11378879151915139072int);
    assert(11378879151915139072int / 1030792151040int == 11038965int);
    assert(x2.spec_div(Scalar::spec_from_int(240)).raw == 11038965);
    assert(11038965int * 4286323339int == 47316573317904135int);
    assert(47316573317904135int / 4294967296int == 11016748int);
    assert(15int * 16int == 240int);
    lemma_series_step(x2, 8, 10, 0, 15, 240, 11038965, 4286323339, 11016748, 4283950548);
    assert(Scalar::spec_from_int(182).raw == 781684047872);
    assert(2649351757int * 4294967296int == 11378879151915139072int);
    assert(11378879151915139072int / 781684047872int == 14556877int);
    assert(x2.spec_div(Scalar::spec_from_int(182)).raw == 14556877);
    assert(14556877int * 4283950548int == 62360941201318596int);
    assert(62360941201318596int / 4294967296int == 14519538int);
    assert(13int * 14int == 182int);
    lemma_series_step(x2, 7, 10, 0, 13, 182, 14556877, 4283950548, 14519538, 4280447758);
    assert(Scalar::spec_from_int(132).raw == 566935683072);
    assert(2649351757int * 4294967296int == 11378879151915139072int);
    assert(11378879151915139072int / 566935683072int == 20070846int);
    assert(x2.spec_div(Scalar::spec_from_int(132)).raw == 20070846);
    assert(20070846int * 4280447758int == 85912207761863268int);
    assert(85912207761863268int / 4294967296int == 20002994int);
    assert(11int * 12int == 132int);
    lemma_series_step(x2, 6, 10, 0, 11, 132, 20070846, 4280447758, 20002994, 4274964302);
    assert(Scalar::spec_from_int(90).raw == 386547056640);
    assert(2649351757int * 4294967296int == 11378879151915139072int);
    assert(11378879151915139072int / 386547056640int == 29437241int);
    assert(x2.spec_div(Scalar::spec_from_int(90)).raw == 29437241);
    assert(29437241int * 4274964302int == 125843154424370782int);
    assert(125843154424370782int / 4294967296int == 29300142int);
    assert(9int * 10int == 90int);
    lemma_series_step(x2, 5, 10, 0, 9, 90, 29437241, 4274964302, 29300142, 4265667154);
    assert(Scalar::spec_from_int(56).raw == 240518168576);
    assert(2649351757int * 4294967296int == 11378879151915139072int);
    assert(11378879151915139072int / 240518168576int == 47309852int);
    assert(x2.spec_div(Scalar::spec_from_int(56)).raw == 47309852);
    assert(47309852int * 4265667154int == 201808081737001208int);
    assert(201808081737001208int / 4294967296int == 46987105int);
    assert(7int * 8int == 56int);
    lemma_series_step(x2, 4, 10, 0, 7, 56, 47309852, 4265667154, 46987105, 4247980191);
    assert(Scalar::spec_from_int(30).raw == 128849018880);
    assert(2649351757int * 4294967296int == 11378879151915139072int);
    assert(11378879151915139072int / 128849018880int == 88311725int);
    assert(x2.spec_div(Scalar::spec_from_int(30)).raw == 88311725);
    assert(88311725int * 4247980191int == 375146458433039475int);
    assert(375146458433039475int / 4294967296int == 87345591int);
    assert(5int * 6int == 30int);
    lemma_series_step(x2, 3, 10, 0, 5, 30, 88311725, 4247980191, 87345591, 4207621705);
    assert(Scalar::spec_from_int(12).raw == 51539607552);
    assert(2649351757int * 4294967296int == 11378879151915139072int);
    assert(11378879151915139072int / 51539607552int == 220779313int);
    assert(x2.spec_div(Scalar::spec_from_int(12)).raw == 220779313);
    assert(220779313int * 4207621705int == 928955829393788665int);
    assert(928955829393788665int / 4294967296int == 216289383int);
    assert(3int * 4int == 12int);
    lemma_series_step(x2, 2, 10, 0, 3, 12, 220779313, 4207621705, 216289383, 4078677913);
    assert(Scalar::spec_from_int(2).raw == 8589934592);
    assert(2649351757int * 4294967296int == 11378879151915139072int);
    assert(11378879151915139072int / 8589934592int == 1324675878int);
    assert(x2.spec_div(Scalar::spec_from_int(2)).raw == 1324675878);
    assert(1324675878int * 4078677913int == 5402926245482482614int);
    assert(5402926245482482614int / 4294967296int == 1257966795int);
    assert(1int * 2int == 2int);
    lemma_series_step(x2, 1, 10, 0, 1, 2, 1324675878, 4078677913, 1257966795, 3037000501);
    assert(3373259426int * 3866829135int == 13043817828370176510int);
    assert(13043817828370176510int / 4294967296int == 3037000500int);
    assert(x.spec_sin().raw == 3037000500);
    assert(x.spec_cos().raw == 3037000501);
    assert(3037000500int * 4294967296int == 13043817825435648000int);
    assert(13043817825435648000int / 3037000501int == 4294967294int);
    assert(x.spec_tan().raw == 4294967294);
}

} // verus!
