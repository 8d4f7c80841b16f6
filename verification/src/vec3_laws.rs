//! What holds of the algebra of vectors.

use vstd::prelude::*;
use crate::arith::floor_sqrt;
use crate::arith::is_floor_sqrt;
use crate::arith::lemma_floor_sqrt_bound;
use crate::arith::lemma_floor_sqrt_exists;
use crate::arith::lemma_floor_sqrt_unique;
use crate::arith::lemma_quot_bracket;
use crate::arith::magnitude;
use crate::arith::quot_toward_zero;
use crate::arith::saturate;
use crate::rng::Rng;
use crate::scalar::MAX_RAW;
use crate::scalar::MIN_RAW;
use crate::scalar::Scalar;
use crate::scalar::MODERATE_RAW;
use crate::scalar_laws::lemma_mul_bounded;
use crate::scalar::SCALE;
use crate::scalar_laws::lemma_add_commutes;
use crate::scalar_laws::lemma_mul_associates_within;
use crate::scalar_laws::lemma_mul_commutes;
use crate::scalar_laws::lemma_mul_one;
use crate::scalar_laws::lemma_mul_zero;
use crate::scalar_laws::lemma_mul_whole;
use crate::scalar_laws::product_fits;
use crate::vec3::STEADY_RAW;
use crate::vec3::Vec3;

verus! {

/// `v + w == w + v`.
pub proof fn lemma_vector_add_commutes(v: Vec3<Scalar>, w: Vec3<Scalar>)
    ensures
        v.spec_add(w) == w.spec_add(v),
{
    lemma_add_commutes(v.x, w.x);
    lemma_add_commutes(v.y, w.y);
    lemma_add_commutes(v.z, w.z);
}

/// One component of `lemma_scale_twice_whole`.
proof fn lemma_scale_scalar_twice_whole(x: Scalar, s: int, t: int)
    requires
        -2147483648 <= s <= 2147483647,
        -2147483648 <= t <= 2147483647,
        -2147483648 <= s * t <= 2147483647,
        saturate(x.raw * s) == x.raw * s,
    ensures
        x.spec_mul(Scalar::spec_from_int(s)).spec_mul(Scalar::spec_from_int(t)) == x.spec_mul(
            Scalar::spec_from_int(s * t),
        ),
{
    lemma_mul_whole(x, s);
    lemma_mul_whole(x.spec_mul(Scalar::spec_from_int(s)), t);
    lemma_mul_whole(x, s * t);
    assert((x.raw * s) * t == x.raw * (s * t)) by (nonlinear_arith);
}

/// `(v * s) * t == v * (s * t)` for whole numbers `s` and `t`, where no
/// product leaves the range.
pub proof fn lemma_scale_twice_whole(v: Vec3<Scalar>, s: int, t: int)
    requires
        -2147483648 <= s <= 2147483647,
        -2147483648 <= t <= 2147483647,
        -2147483648 <= s * t <= 2147483647,
        saturate(v.x.raw * s) == v.x.raw * s,
        saturate(v.y.raw * s) == v.y.raw * s,
        saturate(v.z.raw * s) == v.z.raw * s,
    ensures
        v.spec_scale(Scalar::spec_from_int(s)).spec_scale(Scalar::spec_from_int(t)) == v.spec_scale(
            Scalar::spec_from_int(s).spec_mul(Scalar::spec_from_int(t)),
        ),
{
    let ss = Scalar::spec_from_int(s);
    let tt = Scalar::spec_from_int(t);
    lemma_mul_whole(ss, t);
    assert(ss.raw * t == (s * t) * SCALE) by (nonlinear_arith)
        requires
            ss.raw == s * SCALE,
    ;
    assert(ss.spec_mul(tt) == Scalar::spec_from_int(s * t));
    lemma_scale_scalar_twice_whole(v.x, s, t);
    lemma_scale_scalar_twice_whole(v.y, s, t);
    lemma_scale_scalar_twice_whole(v.z, s, t);
}

/// `(v * s) * t` and `v * (s * t)` agree up to rounding, where no product
/// leaves the range: in every coordinate they differ by less than two raw
/// units more than the magnitudes of `t` and of the coordinate taken together
/// as plain numbers.
pub proof fn lemma_scale_twice_within(v: Vec3<Scalar>, s: Scalar, t: Scalar)
    requires
        product_fits(s, t),
        product_fits(v.x, s) && product_fits(v.x.spec_mul(s), t)
            && product_fits(v.x, s.spec_mul(t)),
        product_fits(v.y, s) && product_fits(v.y.spec_mul(s), t)
            && product_fits(v.y, s.spec_mul(t)),
        product_fits(v.z, s) && product_fits(v.z.spec_mul(s), t)
            && product_fits(v.z, s.spec_mul(t)),
    ensures
        (magnitude(
            v.spec_scale(s).spec_scale(t).x.raw - v.spec_scale(s.spec_mul(t)).x.raw,
        ) - 2) * SCALE < magnitude(t.raw as int) + magnitude(v.x.raw as int),
        (magnitude(
            v.spec_scale(s).spec_scale(t).y.raw - v.spec_scale(s.spec_mul(t)).y.raw,
        ) - 2) * SCALE < magnitude(t.raw as int) + magnitude(v.y.raw as int),
        (magnitude(
            v.spec_scale(s).spec_scale(t).z.raw - v.spec_scale(s.spec_mul(t)).z.raw,
        ) - 2) * SCALE < magnitude(t.raw as int) + magnitude(v.z.raw as int),
{
    lemma_mul_associates_within(v.x, s, t);
    lemma_mul_associates_within(v.y, s, t);
    lemma_mul_associates_within(v.z, s, t);
}

/// `cross(v, v) == (0, 0, 0)`.
pub proof fn lemma_cross_self(v: Vec3<Scalar>)
    ensures
        v.spec_cross(v) == Vec3::<Scalar>::spec_zero(),
{
    lemma_mul_commutes(v.y, v.z);
    lemma_mul_commutes(v.z, v.x);
    lemma_mul_commutes(v.x, v.y);
}

/// A square is never negative.
pub proof fn lemma_square_nonnegative(x: Scalar)
    ensures
        0 <= x.spec_mul(x).raw,
{
    assert(0 <= x.raw * x.raw) by (nonlinear_arith);
    vstd::arithmetic::div_mod::lemma_div_pos_is_pos(x.raw * x.raw, SCALE as int);
}

/// The dot product of a vector with itself is never negative.
pub proof fn lemma_dot_self_nonnegative(v: Vec3<Scalar>)
    ensures
        0 <= v.spec_dot(v).raw,
{
    lemma_square_nonnegative(v.x);
    lemma_square_nonnegative(v.y);
    lemma_square_nonnegative(v.z);
}

/// The zero vector has no length.
pub proof fn lemma_dot_zero()
    ensures
        Vec3::<Scalar>::spec_zero().spec_dot(Vec3::<Scalar>::spec_zero()).raw == 0,
{
    let zero = Scalar { raw: 0 };
    assert(zero.spec_mul(zero).raw == 0) by {
        assert(0int * 0int == 0);
    }
}

/// The square of a raw value over the scale, which is what a scalar times
/// itself comes to.
proof fn lemma_square_bracket(x: Scalar, bound: int)
    requires
        x.raw * x.raw <= bound * SCALE,
        0 <= bound <= MAX_RAW,
    ensures
        0 <= x.spec_mul(x).raw <= bound,
        x.spec_mul(x).raw * SCALE <= x.raw * x.raw < x.spec_mul(x).raw * SCALE + SCALE,
{
    let n = x.raw * x.raw;
    assert(0 <= n) by (nonlinear_arith)
        requires
            n == x.raw * x.raw,
    ;
    lemma_quot_bracket(n, SCALE as int);
    let q = quot_toward_zero(n, SCALE as int);
    assert(0 <= q <= bound) by (nonlinear_arith)
        requires
            0 <= n - q * SCALE < SCALE,
            0 <= n <= bound * SCALE,
            SCALE == 4294967296,
    ;
}

/// `dot(v, v)` and `length(v)^2` agree up to rounding: the first is at most
/// two raw units below the second, and above it by no more than one raw unit
/// and twice the length, where the squared length can be represented.
pub proof fn lemma_dot_self_near_mag_squared(v: Vec3<Scalar>)
    requires
        v.spec_norm_sq() <= MAX_RAW * SCALE,
    ensures
        v.spec_mag().spec_mul(v.spec_mag()).raw - 2 <= v.spec_dot(v).raw,
        (v.spec_dot(v).raw - v.spec_mag().spec_mul(v.spec_mag()).raw - 1) * SCALE <= 2
            * v.spec_mag().raw,
{
    let n = v.spec_norm_sq();
    let xx = v.x.raw * v.x.raw;
    let yy = v.y.raw * v.y.raw;
    let zz = v.z.raw * v.z.raw;
    assert(0 <= xx && 0 <= yy && 0 <= zz) by (nonlinear_arith)
        requires
            xx == v.x.raw * v.x.raw,
            yy == v.y.raw * v.y.raw,
            zz == v.z.raw * v.z.raw,
    ;
    lemma_square_bracket(v.x, MAX_RAW as int);
    lemma_square_bracket(v.y, MAX_RAW as int);
    lemma_square_bracket(v.z, MAX_RAW as int);
    let qx = v.x.spec_mul(v.x).raw;
    let qy = v.y.spec_mul(v.y).raw;
    let qz = v.z.spec_mul(v.z).raw;
    assert((qx + qy + qz) * SCALE <= n);
    assert(qx + qy + qz <= MAX_RAW) by (nonlinear_arith)
        requires
            (qx + qy + qz) * SCALE <= n,
            n <= MAX_RAW * SCALE,
            SCALE == 4294967296,
    ;
    let d = v.spec_dot(v).raw;
    assert(d == qx + qy + qz);
    assert(0x1_0000_0000_0000int * 0x1_0000_0000_0000int == 0x1_0000_0000_0000_0000_0000_0000int)
        by (nonlinear_arith);
    lemma_floor_sqrt_bound(n, 0x1_0000_0000_0000int);
    let m = floor_sqrt(n);
    assert(v.spec_mag().raw == m);
    assert(m * m <= MAX_RAW * SCALE);
    lemma_square_bracket(v.spec_mag(), MAX_RAW as int);
    let p = v.spec_mag().spec_mul(v.spec_mag()).raw;
    assert(p - 2 <= d) by (nonlinear_arith)
        requires
            p * SCALE <= m * m,
            m * m <= n,
            n < (d + 3) * SCALE,
            SCALE == 4294967296,
    ;
    assert((d - p - 1) * SCALE <= 2 * m) by (nonlinear_arith)
        requires
            d * SCALE <= n,
            n < (m + 1) * (m + 1),
            m * m < p * SCALE + SCALE,
            SCALE == 4294967296,
    ;
}

/// `dot(v, v) == length(v)^2` exactly, where neither the squares of the
/// coordinates nor the length are rounded and the squared length can be
/// represented.
pub proof fn lemma_dot_self_is_mag_squared(v: Vec3<Scalar>)
    requires
        v.spec_norm_sq() <= MAX_RAW * SCALE,
        (v.x.raw * v.x.raw) % (SCALE as int) == 0,
        (v.y.raw * v.y.raw) % (SCALE as int) == 0,
        (v.z.raw * v.z.raw) % (SCALE as int) == 0,
        v.spec_mag().raw * v.spec_mag().raw == v.spec_norm_sq(),
    ensures
        v.spec_mag().spec_mul(v.spec_mag()) == v.spec_dot(v),
{
    let n = v.spec_norm_sq();
    let xx = v.x.raw * v.x.raw;
    let yy = v.y.raw * v.y.raw;
    let zz = v.z.raw * v.z.raw;
    assert(0 <= xx && 0 <= yy && 0 <= zz) by (nonlinear_arith)
        requires
            xx == v.x.raw * v.x.raw,
            yy == v.y.raw * v.y.raw,
            zz == v.z.raw * v.z.raw,
    ;
    lemma_square_bracket(v.x, MAX_RAW as int);
    lemma_square_bracket(v.y, MAX_RAW as int);
    lemma_square_bracket(v.z, MAX_RAW as int);
    vstd::arithmetic::div_mod::lemma_fundamental_div_mod(xx, SCALE as int);
    vstd::arithmetic::div_mod::lemma_fundamental_div_mod(yy, SCALE as int);
    vstd::arithmetic::div_mod::lemma_fundamental_div_mod(zz, SCALE as int);
    let qx = v.x.spec_mul(v.x).raw as int;
    let qy = v.y.spec_mul(v.y).raw as int;
    let qz = v.z.spec_mul(v.z).raw as int;
    assert(qx == xx / (SCALE as int));
    assert(qy == yy / (SCALE as int));
    assert(qz == zz / (SCALE as int));
    assert(n == (qx + qy + qz) * SCALE) by (nonlinear_arith)
        requires
            n == xx + yy + zz,
            xx == SCALE * qx,
            yy == SCALE * qy,
            zz == SCALE * qz,
    ;
    assert(qx + qy + qz <= MAX_RAW) by (nonlinear_arith)
        requires
            (qx + qy + qz) * SCALE == n,
            n <= MAX_RAW * SCALE,
            SCALE == 4294967296,
    ;
    assert(v.spec_dot(v).raw == qx + qy + qz);
    crate::arith::lemma_quot_of_multiple(qx + qy + qz, SCALE as int);
}

/// No component is larger than the largest, and the largest is one of them.
pub proof fn lemma_largest_bounds(v: Vec3<Scalar>)
    ensures
        0 <= magnitude(v.x.raw as int) <= v.spec_largest(),
        0 <= magnitude(v.y.raw as int) <= v.spec_largest(),
        0 <= magnitude(v.z.raw as int) <= v.spec_largest(),
        v.spec_largest() * v.spec_largest() <= v.spec_norm_sq(),
        v.spec_largest() == 0 <==> v == Vec3::<Scalar>::spec_zero(),
{
    let x = v.x.raw as int;
    let y = v.y.raw as int;
    let z = v.z.raw as int;
    let big = v.spec_largest();
    assert(big * big <= x * x + y * y + z * z) by (nonlinear_arith)
        requires
            big == x || big == -x || big == y || big == -y || big == z || big == -z,
    ;
}

/// A vector has length zero exactly where it is the zero vector.
pub proof fn lemma_length_zero(v: Vec3<Scalar>)
    ensures
        v.spec_mag().raw >= 0,
        v.spec_mag().raw == 0 <==> v.spec_largest() == 0,
        v.spec_largest() == 0 ==> v.spec_normalize() == Vec3::<Scalar>::spec_zero(),
{
    lemma_largest_bounds(v);
    let n = v.spec_norm_sq();
    assert(0 <= n) by (nonlinear_arith)
        requires
            n == v.x.raw * v.x.raw + v.y.raw * v.y.raw + v.z.raw * v.z.raw,
    ;
    lemma_floor_sqrt_exists(n);
    let m = floor_sqrt(n);
    if v.spec_largest() == 0 {
        assert(n == 0) by (nonlinear_arith)
            requires
                n == v.x.raw * v.x.raw + v.y.raw * v.y.raw + v.z.raw * v.z.raw,
                v.x.raw == 0,
                v.y.raw == 0,
                v.z.raw == 0,
        ;
        assert(m == 0) by (nonlinear_arith)
            requires
                0 <= m,
                m * m <= 0,
        ;
    } else {
        assert(m >= 1) by (nonlinear_arith)
            requires
                0 <= m,
                n < (m + 1) * (m + 1),
                1 <= v.spec_largest(),
                v.spec_largest() * v.spec_largest() <= n,
        ;
    }
}

/// Doubling a vector whose largest component is short of `1/4` doubles its
/// components, the largest with them.
pub proof fn lemma_doubled_grows(v: Vec3<Scalar>)
    requires
        0 < v.spec_largest() < STEADY_RAW,
    ensures
        v.spec_doubled().spec_largest() == 2 * v.spec_largest(),
        v.spec_doubled().x.raw == 2 * v.x.raw,
        v.spec_doubled().y.raw == 2 * v.y.raw,
        v.spec_doubled().z.raw == 2 * v.z.raw,
{
    let x = magnitude(v.x.raw as int);
    let y = magnitude(v.y.raw as int);
    let z = magnitude(v.z.raw as int);
    assert(x <= v.spec_largest() && y <= v.spec_largest() && z <= v.spec_largest());
}

/// Doubling a vector whose largest component is short of `1/4` doubles its
/// largest component, and does not change what the vector amplifies to.
pub proof fn lemma_doubled_largest(v: Vec3<Scalar>)
    requires
        0 < v.spec_largest() < STEADY_RAW,
    ensures
        v.spec_doubled().spec_largest() == 2 * v.spec_largest(),
        v.spec_doubled().x.raw == 2 * v.x.raw,
        v.spec_doubled().y.raw == 2 * v.y.raw,
        v.spec_doubled().z.raw == 2 * v.z.raw,
        v.spec_doubled().spec_amplified() == v.spec_amplified(),
{
    lemma_doubled_grows(v);
}

/// What a vector that is not zero amplifies to has a largest component of
/// `1/4` or more.
pub proof fn lemma_amplified_steady(v: Vec3<Scalar>)
    requires
        0 < v.spec_largest(),
    ensures
        STEADY_RAW <= v.spec_amplified().spec_largest(),
    decreases v.spec_shortfall(),
{
    if v.spec_largest() < STEADY_RAW {
        lemma_doubled_largest(v);
        lemma_amplified_steady(v.spec_doubled());
    }
}

/// A vector grows by one or more when it is amplified.
pub proof fn lemma_gain_positive(v: Vec3<Scalar>)
    ensures
        1 <= v.spec_gain(),
        v.spec_largest() == 0 || v.spec_largest() >= STEADY_RAW ==> v.spec_gain() == 1
            && v.spec_amplified() == v,
    decreases v.spec_shortfall(),
{
    if 0 < v.spec_largest() < STEADY_RAW {
        lemma_doubled_grows(v);
        lemma_gain_positive(v.spec_doubled());
    }
}

/// What a vector amplifies to is the vector times its gain.
pub proof fn lemma_amplified_is_scaled(v: Vec3<Scalar>)
    ensures
        v.spec_amplified().x.raw == v.x.raw * v.spec_gain(),
        v.spec_amplified().y.raw == v.y.raw * v.spec_gain(),
        v.spec_amplified().z.raw == v.z.raw * v.spec_gain(),
        1 <= v.spec_gain(),
    decreases v.spec_shortfall(),
{
    if 0 < v.spec_largest() < STEADY_RAW {
        lemma_doubled_grows(v);
        let w = v.spec_doubled();
        lemma_amplified_is_scaled(w);
        let g = w.spec_gain();
        assert((2 * v.x.raw) * g == v.x.raw * (2 * g)) by (nonlinear_arith);
        assert((2 * v.y.raw) * g == v.y.raw * (2 * g)) by (nonlinear_arith);
        assert((2 * v.z.raw) * g == v.z.raw * (2 * g)) by (nonlinear_arith);
    } else {
        assert(v.x.raw * 1 == v.x.raw);
    }
}

/// Amplifying a vector leaves it within any bound of `1/2` or more that it
/// lay within.
pub proof fn lemma_amplified_bounded(v: Vec3<Scalar>, bound: int)
    requires
        v.spec_largest() <= bound,
        2 * STEADY_RAW <= bound,
    ensures
        v.spec_amplified().spec_largest() <= bound,
    decreases v.spec_shortfall(),
{
    if 0 < v.spec_largest() < STEADY_RAW {
        lemma_doubled_grows(v);
        lemma_amplified_bounded(v.spec_doubled(), bound);
    }
}

/// Amplifying a vector of moderate size leaves it of moderate size.
pub proof fn lemma_amplified_moderate(v: Vec3<Scalar>)
    requires
        v.spec_largest() <= MODERATE_RAW,
    ensures
        v.spec_amplified().spec_largest() <= MODERATE_RAW,
    decreases v.spec_shortfall(),
{
    if 0 < v.spec_largest() < STEADY_RAW {
        lemma_doubled_grows(v);
        lemma_amplified_moderate(v.spec_doubled());
    }
}

/// The opposite of a vector has the length of the vector, where no
/// component is the least scalar.
pub proof fn lemma_opposite_has_same_length(v: Vec3<Scalar>)
    requires
        v.x.raw > MIN_RAW && v.y.raw > MIN_RAW && v.z.raw > MIN_RAW,
    ensures
        v.spec_neg().spec_mag() == v.spec_mag(),
        v.spec_neg().spec_neg() == v,
{
    assert(v.spec_neg().spec_norm_sq() == v.spec_norm_sq()) by (nonlinear_arith)
        requires
            v.spec_neg().x.raw == -v.x.raw,
            v.spec_neg().y.raw == -v.y.raw,
            v.spec_neg().z.raw == -v.z.raw,
    ;
}

/// The length of a vector, rounded down, is at least the magnitude of each
/// of its components, and positive where the vector is not zero.
pub proof fn lemma_components_within_length(v: Vec3<Scalar>)
    ensures
        ({
            let m = floor_sqrt(v.spec_norm_sq());
            &&& is_floor_sqrt(v.spec_norm_sq(), m)
            &&& v.spec_largest() <= m
            &&& magnitude(v.x.raw as int) <= m
            &&& magnitude(v.y.raw as int) <= m
            &&& magnitude(v.z.raw as int) <= m
        }),
{
    lemma_largest_bounds(v);
    let n = v.spec_norm_sq();
    let big = v.spec_largest();
    assert(0 <= n) by (nonlinear_arith)
        requires
            n == v.x.raw * v.x.raw + v.y.raw * v.y.raw + v.z.raw * v.z.raw,
    ;
    lemma_floor_sqrt_exists(n);
    let m = floor_sqrt(n);
    assert(big <= m) by (nonlinear_arith)
        requires
            0 <= big,
            0 <= m,
            big * big <= n,
            n < (m + 1) * (m + 1),
    {
        if m + 1 <= big {
            assert((m + 1) * (m + 1) <= big * big);
        }
    }
}

/// One component of a vector over the vector's length: the quotient is at
/// most one, and its square misses the true square by little.
proof fn lemma_unit_component(x: int, m: int)
    requires
        0 < m,
        magnitude(x) <= m,
    ensures
        ({
            let q = quot_toward_zero(x * SCALE, m);
            let a = magnitude(x);
            &&& -SCALE <= q <= SCALE
            &&& (q * q) * (m * m) <= (a * a) * (SCALE * SCALE)
            &&& (q * q) * (m * m) >= (a * a) * (SCALE * SCALE) - 2 * (a * SCALE) * m
        }),
{
    let a = magnitude(x);
    let num = a * SCALE;
    assert(magnitude(x * SCALE) == num);
    let k = num / m;
    vstd::arithmetic::div_mod::lemma_fundamental_div_mod(num, m);
    vstd::arithmetic::div_mod::lemma_mod_bound(num, m);
    let t = num % m;
    assert(num == m * k + t);
    assert(0 <= k <= SCALE) by (nonlinear_arith)
        requires
            num == m * k + t,
            0 <= t < m,
            0 <= num <= m * SCALE,
            num == a * SCALE,
            0 < m,
            SCALE == 4294967296,
    ;
    let q = quot_toward_zero(x * SCALE, m);
    assert(q == k || q == -k);
    assert(q * q == k * k) by (nonlinear_arith)
        requires
            q == k || q == -k,
    ;
    assert((k * k) * (m * m) <= (a * a) * (SCALE * SCALE)) by (nonlinear_arith)
        requires
            a * SCALE == m * k + t,
            0 <= t,
            0 <= k,
            0 < m,
    {
        assert((k * m) * (k * m) <= (a * SCALE) * (a * SCALE));
    }
    assert((k * k) * (m * m) >= (a * a) * (SCALE * SCALE) - 2 * (a * SCALE) * m)
        by (nonlinear_arith)
        requires
            a * SCALE == m * k + t,
            0 <= t < m,
            0 <= k,
            0 < m,
            0 <= a,
            a <= m,
    {
        assert((k * m) * (k * m) == (a * SCALE - t) * (a * SCALE - t));
        assert((a * SCALE - t) * (a * SCALE - t) >= (a * SCALE) * (a * SCALE) - 2 * (a * SCALE)
            * t);
        assert(2 * (a * SCALE) * t <= 2 * (a * SCALE) * m);
    }
}

/// The length of a vector over its own length, for a vector that is not
/// zero: it is at most four raw units short of `1`, and over `1` by less than
/// the reciprocal of the vector's length.
pub proof fn lemma_over_length_bounds(v: Vec3<Scalar>)
    requires
        0 < v.spec_largest(),
    ensures
        SCALE - 4 <= v.spec_over_length().spec_mag().raw <= 2 * SCALE,
        v.spec_over_length().spec_mag().raw * floor_sqrt(v.spec_norm_sq()) < SCALE * (floor_sqrt(
            v.spec_norm_sq(),
        ) + 1),
        -SCALE <= v.spec_over_length().x.raw <= SCALE,
        -SCALE <= v.spec_over_length().y.raw <= SCALE,
        -SCALE <= v.spec_over_length().z.raw <= SCALE,
        v.spec_over_length().x.raw == quot_toward_zero(
            v.x.raw * SCALE,
            floor_sqrt(v.spec_norm_sq()),
        ),
        v.spec_over_length().y.raw == quot_toward_zero(
            v.y.raw * SCALE,
            floor_sqrt(v.spec_norm_sq()),
        ),
        v.spec_over_length().z.raw == quot_toward_zero(
            v.z.raw * SCALE,
            floor_sqrt(v.spec_norm_sq()),
        ),
{
    let n = v.spec_norm_sq();
    lemma_components_within_length(v);
    let m = floor_sqrt(n);
    let unit = v.spec_over_length();
    lemma_unit_component(v.x.raw as int, m);
    lemma_unit_component(v.y.raw as int, m);
    lemma_unit_component(v.z.raw as int, m);
    let ax = magnitude(v.x.raw as int);
    let ay = magnitude(v.y.raw as int);
    let az = magnitude(v.z.raw as int);
    assert(ax * ax + ay * ay + az * az == n) by (nonlinear_arith)
        requires
            ax == v.x.raw || ax == -v.x.raw,
            ay == v.y.raw || ay == -v.y.raw,
            az == v.z.raw || az == -v.z.raw,
            n == v.x.raw * v.x.raw + v.y.raw * v.y.raw + v.z.raw * v.z.raw,
    ;
    let big = unit.spec_norm_sq();
    let mm = m * m;
    let ss = SCALE * SCALE;
    assert(big * mm <= n * ss) by (nonlinear_arith)
        requires
            big == unit.x.raw * unit.x.raw + unit.y.raw * unit.y.raw + unit.z.raw * unit.z.raw,
            (unit.x.raw * unit.x.raw) * mm <= (ax * ax) * ss,
            (unit.y.raw * unit.y.raw) * mm <= (ay * ay) * ss,
            (unit.z.raw * unit.z.raw) * mm <= (az * az) * ss,
            ax * ax + ay * ay + az * az == n,
    ;
    assert(big * mm >= n * ss - 6 * SCALE * mm) by (nonlinear_arith)
        requires
            big == unit.x.raw * unit.x.raw + unit.y.raw * unit.y.raw + unit.z.raw * unit.z.raw,
            (unit.x.raw * unit.x.raw) * mm >= (ax * ax) * ss - 2 * (ax * SCALE) * m,
            (unit.y.raw * unit.y.raw) * mm >= (ay * ay) * ss - 2 * (ay * SCALE) * m,
            (unit.z.raw * unit.z.raw) * mm >= (az * az) * ss - 2 * (az * SCALE) * m,
            ax * ax + ay * ay + az * az == n,
            0 <= ax <= m,
            0 <= ay <= m,
            0 <= az <= m,
            mm == m * m,
            0 < m,
    {
        assert(2 * (ax * SCALE) * m <= 2 * SCALE * mm);
        assert(2 * (ay * SCALE) * m <= 2 * SCALE * mm);
        assert(2 * (az * SCALE) * m <= 2 * SCALE * mm);
    }
    assert(0 <= big) by (nonlinear_arith)
        requires
            big == unit.x.raw * unit.x.raw + unit.y.raw * unit.y.raw + unit.z.raw * unit.z.raw,
    ;
    lemma_floor_sqrt_exists(big);
    let r = floor_sqrt(big);
    assert(r * m < SCALE * (m + 1)) by (nonlinear_arith)
        requires
            0 <= r,
            r * r <= big,
            big * mm <= n * ss,
            n < (m + 1) * (m + 1),
            mm == m * m,
            ss == SCALE * SCALE,
            0 < m,
            SCALE == 4294967296,
    {
        assert((r * m) * (r * m) <= big * mm);
        assert(n * ss < (SCALE * (m + 1)) * (SCALE * (m + 1)));
        assert((r * m) * (r * m) < (SCALE * (m + 1)) * (SCALE * (m + 1)));
    }
    assert(r <= 2 * SCALE) by (nonlinear_arith)
        requires
            0 <= r,
            1 <= m,
            r * m < SCALE * (m + 1),
            SCALE == 4294967296,
    ;
    assert(SCALE - 4 <= r) by (nonlinear_arith)
        requires
            0 <= r,
            big < (r + 1) * (r + 1),
            big * mm >= n * ss - 6 * SCALE * mm,
            m * m <= n,
            mm == m * m,
            ss == SCALE * SCALE,
            0 < m,
            SCALE == 4294967296,
    {
        assert(n * ss >= mm * ss);
        assert(big * mm >= (ss - 6 * SCALE) * mm);
        assert(big >= ss - 6 * SCALE);
        assert((SCALE - 4) * (SCALE - 4) <= ss - 6 * SCALE);
        if r + 1 <= SCALE - 4 {
            assert((r + 1) * (r + 1) <= (SCALE - 4) * (SCALE - 4));
        }
    }
}

/// A vector that is not zero, normalized, has length `1` within four raw
/// units, which is less than `1e-9`, and no component beyond `1`.
pub proof fn lemma_normalize_has_unit_length(v: Vec3<Scalar>)
    requires
        v.spec_mag().raw > 0,
    ensures
        SCALE - 4 <= v.spec_normalize().spec_mag().raw <= SCALE + 4,
        -SCALE <= v.spec_normalize().x.raw <= SCALE,
        -SCALE <= v.spec_normalize().y.raw <= SCALE,
        -SCALE <= v.spec_normalize().z.raw <= SCALE,
{
    lemma_length_zero(v);
    lemma_amplified_steady(v);
    let w = v.spec_amplified();
    lemma_over_length_bounds(w);
    lemma_components_within_length(w);
    let m = floor_sqrt(w.spec_norm_sq());
    let r = w.spec_over_length().spec_mag().raw;
    assert(r < SCALE + 4) by (nonlinear_arith)
        requires
            r * m < SCALE * (m + 1),
            SCALE <= 4 * m,
            SCALE == 4294967296,
    ;
}

/// Whatever is normalized comes out zero, where it was zero, or of length
/// `1` within four raw units.
pub proof fn lemma_normalize_unit_or_zero(v: Vec3<Scalar>)
    ensures
        v.spec_normalize().spec_unit_or_zero(),
        v.spec_mag().raw > 0 ==> v.spec_normalize().spec_mag().raw > 0,
        -SCALE <= v.spec_normalize().x.raw <= SCALE,
        -SCALE <= v.spec_normalize().y.raw <= SCALE,
        -SCALE <= v.spec_normalize().z.raw <= SCALE,
{
    lemma_length_zero(v);
    if v.spec_mag().raw > 0 {
        lemma_normalize_has_unit_length(v);
    } else {
        lemma_normalize_zero();
    }
}

/// What a vector along the `z` axis amplifies to lies along that axis on the
/// same side.
proof fn lemma_amplified_along_z(g: Scalar)
    requires
        g.raw != 0,
        g.raw > MIN_RAW,
    ensures
        ({
            let w = (Vec3 { x: Scalar::spec_zero(), y: Scalar::spec_zero(), z: g }).spec_amplified();
            &&& w.x.raw == 0
            &&& w.y.raw == 0
            &&& (w.z.raw > 0) == (g.raw > 0)
            &&& w.z.raw > MIN_RAW
            &&& (w.z.raw >= STEADY_RAW || w.z.raw <= -STEADY_RAW)
        }),
    decreases (Vec3 { x: Scalar::spec_zero(), y: Scalar::spec_zero(), z: g }).spec_shortfall(),
{
    let v = Vec3 { x: Scalar::spec_zero(), y: Scalar::spec_zero(), z: g };
    assert(v.spec_largest() == magnitude(g.raw as int));
    if v.spec_largest() < STEADY_RAW {
        lemma_doubled_grows(v);
        let twice = Scalar { raw: (2 * g.raw) as i64 };
        assert(v.spec_doubled() == (Vec3 {
            x: Scalar::spec_zero(),
            y: Scalar::spec_zero(),
            z: twice,
        }));
        lemma_amplified_along_z(twice);
    }
}

/// A vector along the `z` axis that is not zero normalizes to the unit vector
/// along that axis on its side, exactly.
pub proof fn lemma_normalize_along_z(g: Scalar)
    requires
        g.raw != 0,
        g.raw > MIN_RAW,
    ensures
        (Vec3 { x: Scalar::spec_zero(), y: Scalar::spec_zero(), z: g }).spec_normalize() == (Vec3 {
            x: Scalar::spec_zero(),
            y: Scalar::spec_zero(),
            z: if g.raw > 0 {
                Scalar::spec_one()
            } else {
                Scalar::spec_from_int(-1)
            },
        }),
{
    let v = Vec3 { x: Scalar::spec_zero(), y: Scalar::spec_zero(), z: g };
    let w = v.spec_amplified();
    lemma_amplified_along_z(g);
    assert(w == (Vec3 { x: Scalar::spec_zero(), y: Scalar::spec_zero(), z: w.z }));
    assert(v.spec_largest() == magnitude(g.raw as int));
    assert(w.spec_largest() == magnitude(w.z.raw as int));
    lemma_gain_positive(w);
    lemma_normalize_steady_along_z(w.z);
}

/// A vector along the `z` axis that is `1/4` long or more normalizes to the
/// unit vector along that axis on its side, exactly.
proof fn lemma_normalize_steady_along_z(g: Scalar)
    requires
        g.raw >= STEADY_RAW || (MIN_RAW < g.raw && g.raw <= -STEADY_RAW),
    ensures
        (Vec3 { x: Scalar::spec_zero(), y: Scalar::spec_zero(), z: g }).spec_normalize() == (Vec3 {
            x: Scalar::spec_zero(),
            y: Scalar::spec_zero(),
            z: if g.raw > 0 {
                Scalar::spec_one()
            } else {
                Scalar::spec_from_int(-1)
            },
        }),
{
    let v = Vec3 { x: Scalar::spec_zero(), y: Scalar::spec_zero(), z: g };
    let a = magnitude(g.raw as int);
    assert(v.spec_largest() == a);
    lemma_gain_positive(v);
    assert(v.spec_norm_sq() == a * a) by (nonlinear_arith)
        requires
            v.spec_norm_sq() == 0 * 0 + 0 * 0 + g.raw * g.raw,
            a == g.raw || a == -g.raw,
    ;
    assert(is_floor_sqrt(a * a, a)) by (nonlinear_arith)
        requires
            0 <= a,
    ;
    lemma_floor_sqrt_unique(a * a, a);
    assert(0 * SCALE == 0);
    vstd::arithmetic::div_mod::lemma_div_basics(a);
    if g.raw > 0 {
        crate::arith::lemma_quot_bracket(g.raw * SCALE, a);
        assert(g.raw * SCALE == SCALE * a) by (nonlinear_arith)
            requires
                a == g.raw,
        ;
        vstd::arithmetic::div_mod::lemma_div_by_multiple(SCALE as int, a);
        assert(quot_toward_zero(g.raw * SCALE, a) == SCALE);
    } else {
        assert(-(g.raw * SCALE) == SCALE * a && g.raw * SCALE < 0) by (nonlinear_arith)
            requires
                a == -g.raw,
                g.raw < 0,
                SCALE == 4294967296,
        ;
        vstd::arithmetic::div_mod::lemma_div_by_multiple(SCALE as int, a);
        assert(quot_toward_zero(g.raw * SCALE, a) == -SCALE);
    }
}

/// A candidate that a sampler of unit vectors takes is not the zero vector.
pub proof fn lemma_unit_ball_candidate_length(p: Vec3<Scalar>)
    requires
        Vec3::<Scalar>::spec_in_unit_ball(p),
    ensures
        p.spec_mag().raw > 0,
        SCALE - 4 <= p.spec_normalize().spec_mag().raw <= SCALE + 4,
{
    lemma_length_zero(p);
    lemma_largest_bounds(p);
    if p.spec_largest() == 0 {
        lemma_dot_zero();
    }
    lemma_normalize_has_unit_length(p);
}

/// A mirror that lies flat, its normal up the `y` axis, turns the `y` part of
/// a vector of moderate size and keeps the rest, so that the mirrored vector
/// runs along the normal exactly as the reversed vector does.
pub proof fn lemma_reflect_at_flat_mirror(v: Vec3<Scalar>)
    requires
        v.x.spec_moderate() && v.y.spec_moderate() && v.z.spec_moderate(),
    ensures
        ({
            let up = Vec3 { x: Scalar::spec_zero(), y: Scalar::spec_one(), z: Scalar::spec_zero() };
            &&& Vec3::<Scalar>::spec_reflect(v, up) == (Vec3 { x: v.x, y: v.y.spec_neg(), z: v.z })
            &&& Vec3::<Scalar>::spec_reflect(v, up).spec_dot(up) == v.spec_neg().spec_dot(up)
        }),
{
    let zero = Scalar::spec_zero();
    let one = Scalar::spec_one();
    let up = Vec3 { x: zero, y: one, z: zero };
    lemma_mul_zero(v.x);
    lemma_mul_zero(v.z);
    lemma_mul_one(v.y);
    assert(v.spec_dot(up) == v.y);
    lemma_mul_whole(v.y, 2);
    lemma_mul_commutes(Scalar::spec_from_int(2), v.y);
    let twice = Scalar::spec_from_int(2).spec_mul(v.y);
    assert(twice.raw == 2 * v.y.raw);
    lemma_mul_zero(twice);
    lemma_mul_one(twice);
    let mirrored = Vec3::<Scalar>::spec_reflect(v, up);
    assert(mirrored == (Vec3 { x: v.x, y: v.y.spec_neg(), z: v.z }));
    lemma_mul_zero(v.x.spec_neg());
    lemma_mul_zero(v.z.spec_neg());
    lemma_mul_one(v.y.spec_neg());
}

/// The zero vector normalizes to itself.
pub proof fn lemma_normalize_zero()
    ensures
        Vec3::<Scalar>::spec_zero().spec_mag().raw == 0,
        Vec3::<Scalar>::spec_zero().spec_normalize() == Vec3::<Scalar>::spec_zero(),
{
    lemma_length_zero(Vec3::<Scalar>::spec_zero());
}

/// The `x` axis has unit length.
pub proof fn lemma_unit_x_length()
    ensures
        Vec3::<Scalar>::spec_unit_x().spec_mag().raw == SCALE,
{
    assert(SCALE * SCALE + 0 * 0 + 0 * 0 == 0x1_0000_0000_0000_0000int) by (nonlinear_arith)
        requires
            SCALE == 4294967296,
    ;
    assert(is_floor_sqrt(0x1_0000_0000_0000_0000int, 4294967296int)) by (nonlinear_arith);
    lemma_floor_sqrt_unique(0x1_0000_0000_0000_0000int, 4294967296int);
}

/// Whatever a sampler of unit vectors returns has length `1` within four raw
/// units.
pub proof fn lemma_random_unit_vector_length(rng: Rng, attempts: nat)
    ensures
        SCALE - 4 <= Vec3::<Scalar>::spec_random_unit_vector(rng, attempts).0.spec_mag().raw
            <= SCALE + 4,
    decreases attempts,
{
    if attempts == 0 {
        lemma_unit_x_length();
    } else if Vec3::<Scalar>::spec_in_unit_ball(Vec3::<Scalar>::spec_ball_candidate(rng)) {
        lemma_unit_ball_candidate_length(Vec3::<Scalar>::spec_ball_candidate(rng));
    } else {
        lemma_random_unit_vector_length(rng.spec_skip(3), (attempts - 1) as nat);
    }
}

/// The sum of the products of the raw components, before any rounding.
pub open spec fn raw_dot(v: Vec3<Scalar>, w: Vec3<Scalar>) -> int {
    v.x.raw * w.x.raw + v.y.raw * w.y.raw + v.z.raw * w.z.raw
}

/// The dot product is the unrounded sum over the scale, within three raw
/// units, where the factors are small enough for nothing to saturate.
pub proof fn lemma_dot_near_raw_dot(v: Vec3<Scalar>, w: Vec3<Scalar>)
    requires
        v.spec_largest() <= 4 * MODERATE_RAW,
        w.spec_largest() <= SCALE,
    ensures
        -3 * SCALE < v.spec_dot(w).raw * SCALE - raw_dot(v, w) < 3 * SCALE,
{
    lemma_largest_bounds(v);
    lemma_largest_bounds(w);
    let top = 4 * MODERATE_RAW;
    assert(top * SCALE == top * SCALE);
    lemma_mul_bounded(v.x, w.x, top as int, SCALE as int, top as int);
    lemma_mul_bounded(v.y, w.y, top as int, SCALE as int, top as int);
    lemma_mul_bounded(v.z, w.z, top as int, SCALE as int, top as int);
    lemma_quot_bracket(v.x.raw * w.x.raw, SCALE as int);
    lemma_quot_bracket(v.y.raw * w.y.raw, SCALE as int);
    lemma_quot_bracket(v.z.raw * w.z.raw, SCALE as int);
    let qx = v.x.spec_mul(w.x).raw as int;
    let qy = v.y.spec_mul(w.y).raw as int;
    let qz = v.z.spec_mul(w.z).raw as int;
    assert(v.spec_dot(w).raw == qx + qy + qz);
    assert((qx + qy + qz) * SCALE == qx * SCALE + qy * SCALE + qz * SCALE) by (nonlinear_arith);
}

/// One coordinate of a cross product, times the scale, is the difference of
/// the two products that make it up, within two scales.
proof fn lemma_cross_coordinate(p: Scalar, q: Scalar, r: Scalar, s: Scalar)
    requires
        p.spec_moderate() && r.spec_moderate(),
        -SCALE <= q.raw <= SCALE,
        -SCALE <= s.raw <= SCALE,
    ensures
        ({
            let c = p.spec_mul(q).spec_sub(r.spec_mul(s)).raw;
            &&& -2 * SCALE < c * SCALE - (p.raw * q.raw - r.raw * s.raw) < 2 * SCALE
            &&& -2 * MODERATE_RAW <= c <= 2 * MODERATE_RAW
        }),
{
    lemma_mul_bounded(p, q, MODERATE_RAW as int, SCALE as int, MODERATE_RAW as int);
    lemma_mul_bounded(r, s, MODERATE_RAW as int, SCALE as int, MODERATE_RAW as int);
    lemma_quot_bracket(p.raw * q.raw, SCALE as int);
    lemma_quot_bracket(r.raw * s.raw, SCALE as int);
    let m = p.spec_mul(q).raw as int;
    let n = r.spec_mul(s).raw as int;
    assert((m - n) * SCALE == m * SCALE - n * SCALE) by (nonlinear_arith);
}

/// A cross product stands across its second factor: their unrounded dot
/// product stays under six, and their dot product under nine raw units,
/// where the first factor is of moderate size and no component of the second
/// lies beyond `1`.
pub proof fn lemma_cross_across_second(a: Vec3<Scalar>, b: Vec3<Scalar>)
    requires
        a.spec_largest() <= MODERATE_RAW,
        b.spec_largest() <= SCALE,
    ensures
        -6 * SCALE * SCALE < raw_dot(a.spec_cross(b), b) * SCALE < 6 * SCALE * SCALE,
        -8 <= a.spec_cross(b).spec_dot(b).raw <= 8,
        a.spec_cross(b).spec_largest() <= 2 * MODERATE_RAW,
{
    lemma_largest_bounds(a);
    lemma_largest_bounds(b);
    lemma_cross_coordinate(a.y, b.z, a.z, b.y);
    lemma_cross_coordinate(a.z, b.x, a.x, b.z);
    lemma_cross_coordinate(a.x, b.y, a.y, b.x);
    let c = a.spec_cross(b);
    let (a1, a2, a3) = (a.x.raw as int, a.y.raw as int, a.z.raw as int);
    let (b1, b2, b3) = (b.x.raw as int, b.y.raw as int, b.z.raw as int);
    let (c1, c2, c3) = (c.x.raw as int, c.y.raw as int, c.z.raw as int);
    let e1 = c1 * SCALE - (a2 * b3 - a3 * b2);
    let e2 = c2 * SCALE - (a3 * b1 - a1 * b3);
    let e3 = c3 * SCALE - (a1 * b2 - a2 * b1);
    lemma_skew_sum(a1, a2, a3, b1, b2, b3, b1, b2, b3);
    lemma_weighted_errors(c1, c2, c3, e1, e2, e3, b1, b2, b3, a2 * b3 - a3 * b2, a3 * b1 - a1 * b3,
        a1 * b2 - a2 * b1);
    lemma_dot_near_raw_dot(c, b);
}

/// A cross product stands across its first factor as well, where no
/// component of either factor lies beyond `1`.
pub proof fn lemma_cross_across_first(a: Vec3<Scalar>, b: Vec3<Scalar>)
    requires
        a.spec_largest() <= SCALE,
        b.spec_largest() <= SCALE,
    ensures
        -6 * SCALE * SCALE < raw_dot(a.spec_cross(b), a) * SCALE < 6 * SCALE * SCALE,
        -8 <= a.spec_cross(b).spec_dot(a).raw <= 8,
{
    lemma_largest_bounds(a);
    lemma_largest_bounds(b);
    lemma_cross_coordinate(a.y, b.z, a.z, b.y);
    lemma_cross_coordinate(a.z, b.x, a.x, b.z);
    lemma_cross_coordinate(a.x, b.y, a.y, b.x);
    let c = a.spec_cross(b);
    let (a1, a2, a3) = (a.x.raw as int, a.y.raw as int, a.z.raw as int);
    let (b1, b2, b3) = (b.x.raw as int, b.y.raw as int, b.z.raw as int);
    let (c1, c2, c3) = (c.x.raw as int, c.y.raw as int, c.z.raw as int);
    let e1 = c1 * SCALE - (a2 * b3 - a3 * b2);
    let e2 = c2 * SCALE - (a3 * b1 - a1 * b3);
    let e3 = c3 * SCALE - (a1 * b2 - a2 * b1);
    lemma_skew_sum(a1, a2, a3, b1, b2, b3, a1, a2, a3);
    lemma_weighted_errors(c1, c2, c3, e1, e2, e3, a1, a2, a3, a2 * b3 - a3 * b2, a3 * b1 - a1 * b3,
        a1 * b2 - a2 * b1);
    lemma_dot_near_raw_dot(c, a);
}

/// The unrounded cross product of two vectors stands across each of them.
proof fn lemma_skew_sum(
    a1: int,
    a2: int,
    a3: int,
    b1: int,
    b2: int,
    b3: int,
    t1: int,
    t2: int,
    t3: int,
)
    requires
        (t1 == a1 && t2 == a2 && t3 == a3) || (t1 == b1 && t2 == b2 && t3 == b3),
    ensures
        (a2 * b3 - a3 * b2) * t1 + (a3 * b1 - a1 * b3) * t2 + (a1 * b2 - a2 * b1) * t3 == 0,
{
    assert((a2 * b3 - a3 * b2) * a1 + (a3 * b1 - a1 * b3) * a2 + (a1 * b2 - a2 * b1) * a3 == 0)
        by (nonlinear_arith);
    assert((a2 * b3 - a3 * b2) * b1 + (a3 * b1 - a1 * b3) * b2 + (a1 * b2 - a2 * b1) * b3 == 0)
        by (nonlinear_arith);
}

/// Three coordinates that miss their true values by less than two scales
/// each give, against weights within `1`, a sum that misses the true sum by
/// less than six scales squared.
proof fn lemma_weighted_errors(
    c1: int,
    c2: int,
    c3: int,
    e1: int,
    e2: int,
    e3: int,
    t1: int,
    t2: int,
    t3: int,
    x1: int,
    x2: int,
    x3: int,
)
    requires
        e1 == c1 * SCALE - x1,
        e2 == c2 * SCALE - x2,
        e3 == c3 * SCALE - x3,
        -2 * SCALE < e1 < 2 * SCALE,
        -2 * SCALE < e2 < 2 * SCALE,
        -2 * SCALE < e3 < 2 * SCALE,
        -SCALE <= t1 <= SCALE,
        -SCALE <= t2 <= SCALE,
        -SCALE <= t3 <= SCALE,
        x1 * t1 + x2 * t2 + x3 * t3 == 0,
    ensures
        -6 * SCALE * SCALE < (c1 * t1 + c2 * t2 + c3 * t3) * SCALE < 6 * SCALE * SCALE,
{
    assert((c1 * t1 + c2 * t2 + c3 * t3) * SCALE == e1 * t1 + e2 * t2 + e3 * t3 + (x1 * t1 + x2
        * t2 + x3 * t3)) by (nonlinear_arith)
        requires
            e1 == c1 * SCALE - x1,
            e2 == c2 * SCALE - x2,
            e3 == c3 * SCALE - x3,
    ;
    assert(-2 * SCALE * SCALE < e1 * t1 < 2 * SCALE * SCALE) by (nonlinear_arith)
        requires
            -2 * SCALE < e1 < 2 * SCALE,
            -SCALE <= t1 <= SCALE,
            SCALE == 4294967296,
    ;
    assert(-2 * SCALE * SCALE < e2 * t2 < 2 * SCALE * SCALE) by (nonlinear_arith)
        requires
            -2 * SCALE < e2 < 2 * SCALE,
            -SCALE <= t2 <= SCALE,
            SCALE == 4294967296,
    ;
    assert(-2 * SCALE * SCALE < e3 * t3 < 2 * SCALE * SCALE) by (nonlinear_arith)
        requires
            -2 * SCALE < e3 < 2 * SCALE,
            -SCALE <= t3 <= SCALE,
            SCALE == 4294967296,
    ;
}

/// Normalizing a vector whose largest component is `1/4` or more keeps its
/// direction: against a vector within `1` that it stands across up to
/// rounding, the normalized vector stands across within thirty raw units.
pub proof fn lemma_normalize_keeps_across(c: Vec3<Scalar>, w: Vec3<Scalar>)
    requires
        STEADY_RAW <= c.spec_largest() <= 2 * MODERATE_RAW,
        w.spec_largest() <= SCALE,
        -6 * SCALE * SCALE < raw_dot(c, w) * SCALE < 6 * SCALE * SCALE,
    ensures
        -30 <= c.spec_normalize().spec_dot(w).raw <= 30,
{
    lemma_gain_positive(c);
    lemma_components_within_length(c);
    lemma_largest_bounds(w);
    lemma_largest_bounds(c);
    let m = floor_sqrt(c.spec_norm_sq());
    let n = c.spec_normalize();
    assert(n == c.spec_over_length());
    lemma_over_length_bounds(c);
    lemma_quot_bracket(c.x.raw * SCALE, m);
    lemma_quot_bracket(c.y.raw * SCALE, m);
    lemma_quot_bracket(c.z.raw * SCALE, m);
    let (n1, n2, n3) = (n.x.raw as int, n.y.raw as int, n.z.raw as int);
    let (w1, w2, w3) = (w.x.raw as int, w.y.raw as int, w.z.raw as int);
    let r1 = c.x.raw * SCALE - n1 * m;
    let r2 = c.y.raw * SCALE - n2 * m;
    let r3 = c.z.raw * SCALE - n3 * m;
    let joined = n1 * w1 + n2 * w2 + n3 * w3;
    let rd = raw_dot(c, w);
    assert(r1 * w1 == (c.x.raw * w1) * SCALE - (n1 * w1) * m) by (nonlinear_arith)
        requires
            r1 == c.x.raw * SCALE - n1 * m,
    ;
    assert(r2 * w2 == (c.y.raw * w2) * SCALE - (n2 * w2) * m) by (nonlinear_arith)
        requires
            r2 == c.y.raw * SCALE - n2 * m,
    ;
    assert(r3 * w3 == (c.z.raw * w3) * SCALE - (n3 * w3) * m) by (nonlinear_arith)
        requires
            r3 == c.z.raw * SCALE - n3 * m,
    ;
    assert(joined * m == (n1 * w1) * m + (n2 * w2) * m + (n3 * w3) * m) by (nonlinear_arith)
        requires
            joined == n1 * w1 + n2 * w2 + n3 * w3,
    ;
    assert(rd * SCALE == (c.x.raw * w1) * SCALE + (c.y.raw * w2) * SCALE + (c.z.raw * w3) * SCALE)
        by (nonlinear_arith)
        requires
            rd == c.x.raw * w1 + c.y.raw * w2 + c.z.raw * w3,
    ;
    assert(joined * m == rd * SCALE - (r1 * w1 + r2 * w2 + r3 * w3));
    assert(-(m * SCALE) <= r1 * w1 <= m * SCALE) by (nonlinear_arith)
        requires
            -m < r1 < m,
            -SCALE <= w1 <= SCALE,
            SCALE == 4294967296,
    ;
    assert(-(m * SCALE) <= r2 * w2 <= m * SCALE) by (nonlinear_arith)
        requires
            -m < r2 < m,
            -SCALE <= w2 <= SCALE,
            SCALE == 4294967296,
    ;
    assert(-(m * SCALE) <= r3 * w3 <= m * SCALE) by (nonlinear_arith)
        requires
            -m < r3 < m,
            -SCALE <= w3 <= SCALE,
            SCALE == 4294967296,
    ;
    assert(-27 * SCALE < joined < 27 * SCALE) by (nonlinear_arith)
        requires
            -6 * SCALE * SCALE < rd * SCALE < 6 * SCALE * SCALE,
            -(3 * (m * SCALE)) <= joined * m - rd * SCALE <= 3 * (m * SCALE),
            SCALE <= 4 * m,
            0 < m,
            SCALE == 4294967296,
    {
        assert(6 * SCALE * SCALE <= 24 * (m * SCALE));
        assert(-(27 * (m * SCALE)) < joined * m < 27 * (m * SCALE));
        assert(27 * (m * SCALE) == (27 * SCALE) * m);
    }
    lemma_dot_near_raw_dot(n, w);
    assert(raw_dot(n, w) == joined);
    let d = n.spec_dot(w).raw as int;
    assert(-30 <= d <= 30) by (nonlinear_arith)
        requires
            -3 * SCALE < d * SCALE - joined < 3 * SCALE,
            -27 * SCALE < joined < 27 * SCALE,
            SCALE == 4294967296,
    ;
}

/// The squares of the coordinates of an unrounded cross product add up to
/// the product of the squared lengths less the square of the dot product.
proof fn lemma_lagrange(w1: int, w2: int, w3: int, u1: int, u2: int, u3: int)
    ensures
        (w2 * u3 - w3 * u2) * (w2 * u3 - w3 * u2) + (w3 * u1 - w1 * u3) * (w3 * u1 - w1 * u3) + (w1
            * u2 - w2 * u1) * (w1 * u2 - w2 * u1) == (w1 * w1 + w2 * w2 + w3 * w3) * (u1 * u1 + u2
            * u2 + u3 * u3) - (w1 * u1 + w2 * u2 + w3 * u3) * (w1 * u1 + w2 * u2 + w3 * u3),
{
    let (a, b, c) = (w1 * u1, w2 * u2, w3 * u3);
    let (p, q) = (w2 * u3, w3 * u2);
    let (r, s) = (w3 * u1, w1 * u3);
    let (t, v) = (w1 * u2, w2 * u1);
    assert((p - q) * (p - q) == p * p - 2 * (p * q) + q * q) by (nonlinear_arith);
    assert((r - s) * (r - s) == r * r - 2 * (r * s) + s * s) by (nonlinear_arith);
    assert((t - v) * (t - v) == t * t - 2 * (t * v) + v * v) by (nonlinear_arith);
    assert((a + b + c) * (a + b + c) == a * a + b * b + c * c + 2 * (a * b) + 2 * (a * c) + 2 * (b
        * c)) by (nonlinear_arith);
    assert(p * q == b * c) by (nonlinear_arith)
        requires
            p == w2 * u3,
            q == w3 * u2,
            b == w2 * u2,
            c == w3 * u3,
    ;
    assert(r * s == a * c) by (nonlinear_arith)
        requires
            r == w3 * u1,
            s == w1 * u3,
            a == w1 * u1,
            c == w3 * u3,
    ;
    assert(t * v == a * b) by (nonlinear_arith)
        requires
            t == w1 * u2,
            v == w2 * u1,
            a == w1 * u1,
            b == w2 * u2,
    ;
    let (ww1, ww2, ww3) = (w1 * w1, w2 * w2, w3 * w3);
    let (uu1, uu2, uu3) = (u1 * u1, u2 * u2, u3 * u3);
    assert((ww1 + ww2 + ww3) * (uu1 + uu2 + uu3) == ww1 * uu1 + ww1 * uu2 + ww1 * uu3 + ww2 * uu1
        + ww2 * uu2 + ww2 * uu3 + ww3 * uu1 + ww3 * uu2 + ww3 * uu3) by (nonlinear_arith);
    assert(ww1 * uu1 == a * a) by (nonlinear_arith)
        requires
            ww1 == w1 * w1,
            uu1 == u1 * u1,
            a == w1 * u1,
    ;
    assert(ww2 * uu2 == b * b) by (nonlinear_arith)
        requires
            ww2 == w2 * w2,
            uu2 == u2 * u2,
            b == w2 * u2,
    ;
    assert(ww3 * uu3 == c * c) by (nonlinear_arith)
        requires
            ww3 == w3 * w3,
            uu3 == u3 * u3,
            c == w3 * u3,
    ;
    assert(ww2 * uu3 == p * p) by (nonlinear_arith)
        requires
            ww2 == w2 * w2,
            uu3 == u3 * u3,
            p == w2 * u3,
    ;
    assert(ww3 * uu2 == q * q) by (nonlinear_arith)
        requires
            ww3 == w3 * w3,
            uu2 == u2 * u2,
            q == w3 * u2,
    ;
    assert(ww3 * uu1 == r * r) by (nonlinear_arith)
        requires
            ww3 == w3 * w3,
            uu1 == u1 * u1,
            r == w3 * u1,
    ;
    assert(ww1 * uu3 == s * s) by (nonlinear_arith)
        requires
            ww1 == w1 * w1,
            uu3 == u3 * u3,
            s == w1 * u3,
    ;
    assert(ww1 * uu2 == t * t) by (nonlinear_arith)
        requires
            ww1 == w1 * w1,
            uu2 == u2 * u2,
            t == w1 * u2,
    ;
    assert(ww2 * uu1 == v * v) by (nonlinear_arith)
        requires
            ww2 == w2 * w2,
            uu1 == u1 * u1,
            v == w2 * u1,
    ;
}

/// The cross product of two vectors of unit length that stand across one
/// another within thirty raw units is itself nearly of unit length: its
/// largest component is `1/4` or more, so that normalizing it does not
/// amplify it.
pub proof fn lemma_cross_of_unit_pair_is_steady(w: Vec3<Scalar>, u: Vec3<Scalar>)
    requires
        w.spec_largest() <= SCALE,
        u.spec_largest() <= SCALE,
        SCALE - 4 <= w.spec_mag().raw,
        SCALE - 4 <= u.spec_mag().raw,
        -30 <= u.spec_dot(w).raw <= 30,
    ensures
        STEADY_RAW <= w.spec_cross(u).spec_largest(),
{
    lemma_largest_bounds(w);
    lemma_largest_bounds(u);
    lemma_components_within_length(w);
    lemma_components_within_length(u);
    let (w1, w2, w3) = (w.x.raw as int, w.y.raw as int, w.z.raw as int);
    let (u1, u2, u3) = (u.x.raw as int, u.y.raw as int, u.z.raw as int);
    let nw = w.spec_norm_sq();
    let nu = u.spec_norm_sq();
    let mw = floor_sqrt(nw);
    let mu = floor_sqrt(nu);
    assert(nw >= (SCALE - 4) * (SCALE - 4)) by (nonlinear_arith)
        requires
            mw * mw <= nw,
            SCALE - 4 <= mw,
            SCALE == 4294967296,
    ;
    assert(nu >= (SCALE - 4) * (SCALE - 4)) by (nonlinear_arith)
        requires
            mu * mu <= nu,
            SCALE - 4 <= mu,
            SCALE == 4294967296,
    ;
    lemma_dot_near_raw_dot(u, w);
    let rd = raw_dot(u, w);
    assert(-33 * SCALE < rd < 33 * SCALE);
    assert(rd == w1 * u1 + w2 * u2 + w3 * u3) by (nonlinear_arith)
        requires
            rd == u1 * w1 + u2 * w2 + u3 * w3,
    ;
    lemma_lagrange(w1, w2, w3, u1, u2, u3);
    let x1 = w2 * u3 - w3 * u2;
    let x2 = w3 * u1 - w1 * u3;
    let x3 = w1 * u2 - w2 * u1;
    let total = x1 * x1 + x2 * x2 + x3 * x3;
    assert(total == nw * nu - rd * rd);
    let low = (SCALE - 4) * (SCALE - 4);
    assert(nw * nu >= low * low) by (nonlinear_arith)
        requires
            nw >= low,
            nu >= low,
            0 <= low,
    ;
    assert(rd * rd <= (33 * SCALE) * (33 * SCALE)) by (nonlinear_arith)
        requires
            -33 * SCALE < rd < 33 * SCALE,
            SCALE == 4294967296,
    ;
    lemma_cross_coordinate(w.y, u.z, w.z, u.y);
    lemma_cross_coordinate(w.z, u.x, w.x, u.z);
    lemma_cross_coordinate(w.x, u.y, w.y, u.x);
    let c = w.spec_cross(u);
    lemma_largest_bounds(c);
    if c.spec_largest() < STEADY_RAW {
        let edge = (STEADY_RAW + 2) * SCALE;
        assert(-edge < x1 < edge && -edge < x2 < edge && -edge < x3 < edge);
        assert(x1 * x1 <= edge * edge && x2 * x2 <= edge * edge && x3 * x3 <= edge * edge)
            by (nonlinear_arith)
            requires
                -edge < x1 < edge,
                -edge < x2 < edge,
                -edge < x3 < edge,
        ;
        assert(3 * (edge * edge) < low * low - (33 * SCALE) * (33 * SCALE)) by (nonlinear_arith)
            requires
                edge == (1073741824 + 2) * 4294967296,
                low == (4294967296 - 4) * (4294967296 - 4),
                SCALE == 4294967296,
        ;
        assert(false);
    }
}

} // verus!
