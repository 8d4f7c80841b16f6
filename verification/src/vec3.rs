//! Three-component vectors, used alike for points, directions and colours.

use vstd::prelude::*;
use crate::arith::floor_sqrt;
use crate::arith::floor_sqrt_of;
use crate::arith::magnitude;
use crate::arith::quot_toward_zero;
use crate::vec3_laws::lemma_amplified_steady;
use crate::vec3_laws::lemma_components_within_length;
use crate::vec3_laws::lemma_doubled_grows;
use crate::vec3_laws::lemma_doubled_largest;
use crate::vec3_laws::lemma_length_zero;
use crate::vec3_laws::lemma_normalize_has_unit_length;
use crate::arith::saturate;
use crate::rng::MAX_ATTEMPTS;
use crate::rng::Rng;
use crate::scalar::Scalar;
use crate::scalar::SCALE;
use crate::scalar_laws::lemma_mul_commutes;
use crate::vec3_laws::lemma_dot_zero;
use crate::vec3_laws::lemma_random_unit_vector_length;

verus! {

/// Raw bound under which a component counts as zero: `1e-8`, rounded down.
pub const NEAR_ZERO_RAW: i64 = 42;

/// Raw bound that the squared length of a direction must exceed before it is
/// normalized: `1e-160`, rounded down.
pub const UNIT_FLOOR_RAW: i64 = 0;

/// Raw value of `1/4`. A short vector is doubled until its largest component
/// reaches this size before it is divided by its length, so that the length
/// is known to one part in `2^30`.
pub const STEADY_RAW: i64 = 1073741824;

/// A triple `(x, y, z)`.
#[derive(Debug, Clone, Copy, PartialEq, Eq, Structural)]
pub struct Vec3<T> {
    pub x: T,
    pub y: T,
    pub z: T,
}

impl<T> Vec3<T> {
    pub fn new(x: T, y: T, z: T) -> (r: Self)
        ensures
            r.x == x,
            r.y == y,
            r.z == z,
    {
        Vec3 { x, y, z }
    }

    pub fn x(&self) -> (r: &T)
        ensures
            *r == self.x,
    {
        &self.x
    }

    pub fn y(&self) -> (r: &T)
        ensures
            *r == self.y,
    {
        &self.y
    }

    pub fn z(&self) -> (r: &T)
        ensures
            *r == self.z,
    {
        &self.z
    }
}

/// The square of a raw value.
pub fn square_of(v: i64) -> (r: u128)
    ensures
        r as int == v * v,
        r <= 0x4000_0000_0000_0000_0000_0000_0000_0000u128,
{
    let m: u128 = if v >= 0 {
        v as u128
    } else {
        let w: i128 = -(v as i128);
        w as u128
    };
    assert(m * m == v * v && m * m <= 0x4000_0000_0000_0000_0000_0000_0000_0000u128)
        by (nonlinear_arith)
        requires
            m == v || m == -v,
            0 <= m <= 0x8000_0000_0000_0000u128,
    ;
    m * m
}

/// The magnitude of a raw value.
fn magnitude_raw(v: i64) -> (r: u64)
    ensures
        r as int == magnitude(v as int),
{
    if v >= 0 {
        v as u64
    } else {
        let w: i128 = -(v as i128);
        w as u64
    }
}

/// One raw component over a length that is at least its magnitude.
fn over(x: i64, m: u64) -> (r: i64)
    requires
        0 < m,
        magnitude(x as int) <= m,
    ensures
        r as int == quot_toward_zero(x * SCALE, m as int),
        -SCALE <= r <= SCALE,
{
    let a: u64 = magnitude_raw(x);
    let n: u128 = (a as u128) * 4294967296u128;
    let q: u128 = n / (m as u128);
    proof {
        assert(n <= m * 4294967296) by (nonlinear_arith)
            requires
                n == a * 4294967296,
                a <= m,
        ;
        vstd::arithmetic::div_mod::lemma_div_is_ordered(n as int, m * 4294967296, m as int);
        vstd::arithmetic::div_mod::lemma_div_by_multiple(4294967296, m as int);
        assert(m * 4294967296 == 4294967296 * m) by (nonlinear_arith);
        assert(x * SCALE == x * 4294967296);
    }
    if x < 0 {
        -(q as i64)
    } else {
        q as i64
    }
}

impl Vec3<Scalar> {
    pub open spec fn spec_zero() -> Self {
        Vec3 { x: Scalar { raw: 0 }, y: Scalar { raw: 0 }, z: Scalar { raw: 0 } }
    }

    pub open spec fn spec_add(self, rhs: Self) -> Self {
        Vec3 { x: self.x.spec_add(rhs.x), y: self.y.spec_add(rhs.y), z: self.z.spec_add(rhs.z) }
    }

    pub open spec fn spec_sub(self, rhs: Self) -> Self {
        Vec3 { x: self.x.spec_sub(rhs.x), y: self.y.spec_sub(rhs.y), z: self.z.spec_sub(rhs.z) }
    }

    pub open spec fn spec_neg(self) -> Self {
        Vec3 { x: self.x.spec_neg(), y: self.y.spec_neg(), z: self.z.spec_neg() }
    }

    /// Every component times `s`.
    pub open spec fn spec_scale(self, s: Scalar) -> Self {
        Vec3 { x: self.x.spec_mul(s), y: self.y.spec_mul(s), z: self.z.spec_mul(s) }
    }

    /// Every component divided by `s`.
    pub open spec fn spec_shrink(self, s: Scalar) -> Self {
        Vec3 { x: self.x.spec_div(s), y: self.y.spec_div(s), z: self.z.spec_div(s) }
    }

    /// The componentwise product, by which a colour attenuates another.
    pub open spec fn spec_hadamard(self, rhs: Self) -> Self {
        Vec3 { x: self.x.spec_mul(rhs.x), y: self.y.spec_mul(rhs.y), z: self.z.spec_mul(rhs.z) }
    }

    pub open spec fn spec_dot(self, rhs: Self) -> Scalar {
        self.x.spec_mul(rhs.x).spec_add(self.y.spec_mul(rhs.y)).spec_add(self.z.spec_mul(rhs.z))
    }

    pub open spec fn spec_cross(self, rhs: Self) -> Self {
        Vec3 {
            x: self.y.spec_mul(rhs.z).spec_sub(self.z.spec_mul(rhs.y)),
            y: self.z.spec_mul(rhs.x).spec_sub(self.x.spec_mul(rhs.z)),
            z: self.x.spec_mul(rhs.y).spec_sub(self.y.spec_mul(rhs.x)),
        }
    }

    /// The sum of the squares of the raw components.
    pub open spec fn spec_norm_sq(self) -> int {
        self.x.raw * self.x.raw + self.y.raw * self.y.raw + self.z.raw * self.z.raw
    }

    /// The Euclidean length, rounded down to a raw unit.
    pub open spec fn spec_mag(self) -> Scalar {
        Scalar { raw: saturate(floor_sqrt(self.spec_norm_sq())) as i64 }
    }

    /// The largest magnitude among the raw components.
    pub open spec fn spec_largest(self) -> int {
        let x = magnitude(self.x.raw as int);
        let y = magnitude(self.y.raw as int);
        let z = magnitude(self.z.raw as int);
        if x >= y && x >= z {
            x
        } else if y >= z {
            y
        } else {
            z
        }
    }

    /// By how much the largest component falls short of `1/4`.
    pub open spec fn spec_shortfall(self) -> nat {
        if self.spec_largest() < STEADY_RAW {
            (STEADY_RAW - self.spec_largest()) as nat
        } else {
            0
        }
    }

    /// The vector of twice the length.
    pub open spec fn spec_doubled(self) -> Self {
        Vec3 {
            x: Scalar { raw: (2 * self.x.raw) as i64 },
            y: Scalar { raw: (2 * self.y.raw) as i64 },
            z: Scalar { raw: (2 * self.z.raw) as i64 },
        }
    }

    /// The vector doubled as often as it takes for its largest component to
    /// reach `1/4`; a vector that is zero, or that large already, is left as
    /// it is.
    pub open spec fn spec_amplified(self) -> Self
        decreases self.spec_shortfall(),
    {
        if 0 < self.spec_largest() < STEADY_RAW {
            proof {
                lemma_doubled_grows(self);
            }
            self.spec_doubled().spec_amplified()
        } else {
            self
        }
    }

    /// The power of two by which a vector grows when it is amplified.
    pub open spec fn spec_gain(self) -> int
        decreases self.spec_shortfall(),
    {
        if 0 < self.spec_largest() < STEADY_RAW {
            proof {
                lemma_doubled_grows(self);
            }
            2 * self.spec_doubled().spec_gain()
        } else {
            1
        }
    }

    /// Every component over the Euclidean length of the vector, the length
    /// rounded down to a raw unit and each quotient rounded toward zero.
    pub open spec fn spec_over_length(self) -> Self {
        let m = floor_sqrt(self.spec_norm_sq());
        Vec3 {
            x: Scalar { raw: quot_toward_zero(self.x.raw * SCALE, m) as i64 },
            y: Scalar { raw: quot_toward_zero(self.y.raw * SCALE, m) as i64 },
            z: Scalar { raw: quot_toward_zero(self.z.raw * SCALE, m) as i64 },
        }
    }

    /// The vector scaled to unit length: it is doubled until its largest
    /// component reaches `1/4` and then divided by its length. The zero
    /// vector stays zero.
    pub open spec fn spec_normalize(self) -> Self {
        if self.spec_largest() == 0 {
            Self::spec_zero()
        } else {
            self.spec_amplified().spec_over_length()
        }
    }

    /// The vector is zero, or of length `1` within four raw units.
    pub open spec fn spec_unit_or_zero(self) -> bool {
        self.spec_mag().raw == 0 || SCALE - 4 <= self.spec_mag().raw <= SCALE + 4
    }

    pub open spec fn spec_near_zero(self) -> bool {
        &&& self.x.spec_abs().raw < NEAR_ZERO_RAW
        &&& self.y.spec_abs().raw < NEAR_ZERO_RAW
        &&& self.z.spec_abs().raw < NEAR_ZERO_RAW
    }

    /// `v - 2 * dot(v, n) * n`: `v` mirrored at the plane with normal `n`.
    pub open spec fn spec_reflect(v: Self, n: Self) -> Self {
        v.spec_sub(n.spec_scale(Scalar::spec_from_int(2).spec_mul(v.spec_dot(n))))
    }

    /// The part of the refracted ray across the normal.
    pub open spec fn spec_refract_across(uv: Self, n: Self, etai_over_etat: Scalar) -> Self {
        let cos_theta = uv.spec_neg().spec_dot(n).spec_min(Scalar { raw: SCALE });
        uv.spec_add(n.spec_scale(cos_theta)).spec_scale(etai_over_etat)
    }

    /// The part of the refracted ray along the normal.
    pub open spec fn spec_refract_along(uv: Self, n: Self, etai_over_etat: Scalar) -> Self {
        let across = Self::spec_refract_across(uv, n, etai_over_etat);
        n.spec_scale(
            Scalar { raw: SCALE }.spec_sub(across.spec_dot(across)).spec_abs().spec_sqrt(),
        ).spec_neg()
    }

    /// Snell's law for a unit direction `uv` at a surface with unit normal `n`.
    pub open spec fn spec_refract(uv: Self, n: Self, etai_over_etat: Scalar) -> Self {
        Self::spec_refract_along(uv, n, etai_over_etat).spec_add(
            Self::spec_refract_across(uv, n, etai_over_etat),
        )
    }

    /// The vector that the next three draws give, each component in `[0, 1)`.
    pub open spec fn spec_random_vec3(rng: Rng) -> Self {
        Vec3 {
            x: rng.spec_float(),
            y: rng.spec_next().spec_float(),
            z: rng.spec_next().spec_next().spec_float(),
        }
    }

    /// The point of the square `[-1, 1)^2` that the next two draws give.
    pub open spec fn spec_disk_candidate(rng: Rng) -> Self {
        let low = Scalar::spec_from_int(-1);
        let high = Scalar::spec_from_int(1);
        Vec3 {
            x: rng.spec_float_interval(low, high),
            y: rng.spec_next().spec_float_interval(low, high),
            z: Scalar { raw: 0 },
        }
    }

    /// A candidate is taken when it lies inside the unit circle.
    pub open spec fn spec_in_unit_disk(p: Self) -> bool {
        p.spec_dot(p).raw < SCALE
    }

    /// The first of up to `attempts` candidates that lies inside the unit
    /// circle, with the generator as that draw leaves it; the centre once the
    /// attempts run out.
    pub open spec fn spec_random_in_unit_disk(rng: Rng, attempts: nat) -> (Self, Rng)
        decreases attempts,
    {
        if attempts == 0 {
            (Self::spec_zero(), rng)
        } else if Self::spec_in_unit_disk(Self::spec_disk_candidate(rng)) {
            (Self::spec_disk_candidate(rng), rng.spec_skip(2))
        } else {
            Self::spec_random_in_unit_disk(rng.spec_skip(2), (attempts - 1) as nat)
        }
    }

    /// The point of the cube `[-1, 1)^3` that the next three draws give.
    pub open spec fn spec_ball_candidate(rng: Rng) -> Self {
        rng.spec_range_vec3(Scalar::spec_from_int(-1), Scalar::spec_from_int(1))
    }

    /// A candidate is taken when it lies inside the unit sphere and is long
    /// enough to be normalized.
    pub open spec fn spec_in_unit_ball(p: Self) -> bool {
        UNIT_FLOOR_RAW < p.spec_dot(p).raw <= SCALE
    }

    /// The `x` axis, which a sampler returns once its attempts run out.
    pub open spec fn spec_unit_x() -> Self {
        Vec3 { x: Scalar { raw: SCALE }, y: Scalar { raw: 0 }, z: Scalar { raw: 0 } }
    }

    /// The first of up to `attempts` candidates that lies inside the unit
    /// sphere, normalized, with the generator as that draw leaves it.
    pub open spec fn spec_random_unit_vector(rng: Rng, attempts: nat) -> (Self, Rng)
        decreases attempts,
    {
        if attempts == 0 {
            (Self::spec_unit_x(), rng)
        } else if Self::spec_in_unit_ball(Self::spec_ball_candidate(rng)) {
            (Self::spec_ball_candidate(rng).spec_normalize(), rng.spec_skip(3))
        } else {
            Self::spec_random_unit_vector(rng.spec_skip(3), (attempts - 1) as nat)
        }
    }

    /// A random unit vector, turned to the side of `normal`.
    pub open spec fn spec_random_on_hemisphere(rng: Rng, normal: Self) -> (Self, Rng) {
        let (unit, next) = Self::spec_random_unit_vector(rng, MAX_ATTEMPTS as nat);
        if unit.spec_dot(normal).raw > 0 {
            (unit, next)
        } else {
            (unit.spec_neg(), next)
        }
    }

    pub fn origin() -> (r: Self)
        ensures
            r == Self::spec_zero(),
    {
        Vec3 { x: Scalar::zero(), y: Scalar::zero(), z: Scalar::zero() }
    }

    pub fn negate(self) -> (r: Self)
        ensures
            r == self.spec_neg(),
    {
        Vec3 { x: self.x.negate(), y: self.y.negate(), z: self.z.negate() }
    }

    /// The sum of the squares of the raw components.
    pub fn norm_sq(&self) -> (r: u128)
        ensures
            r as int == self.spec_norm_sq(),
    {
        let xx: u128 = square_of(self.x.raw);
        let yy: u128 = square_of(self.y.raw);
        let zz: u128 = square_of(self.z.raw);
        xx + yy + zz
    }

    pub fn mag(&self) -> (r: Scalar)
        ensures
            r == self.spec_mag(),
    {
        let xx: u128 = square_of(self.x.raw);
        let yy: u128 = square_of(self.y.raw);
        let zz: u128 = square_of(self.z.raw);
        let root: u64 = floor_sqrt_of(xx + yy + zz);
        if root > 9223372036854775807u64 {
            Scalar::infinity()
        } else {
            Scalar::from_raw(root as i64)
        }
    }

    /// The largest magnitude among the raw components.
    pub fn largest(&self) -> (r: u64)
        ensures
            r as int == self.spec_largest(),
    {
        let x: u64 = magnitude_raw(self.x.raw);
        let y: u64 = magnitude_raw(self.y.raw);
        let z: u64 = magnitude_raw(self.z.raw);
        if x >= y && x >= z {
            x
        } else if y >= z {
            y
        } else {
            z
        }
    }

    /// The vector doubled until its largest component reaches `1/4`, and the
    /// power of two by which it grew. The zero vector, and a vector that is
    /// large enough, come back as they are, with `1`.
    pub fn amplified(&self) -> (r: (Self, u32))
        ensures
            r.0 == self.spec_amplified(),
            r.1 as int == self.spec_gain(),
            1 <= r.1 <= 2147483648,
    {
        let mut largest: u64 = self.largest();
        let mut w: Self = *self;
        let mut gain: u32 = 1;
        while 0 < largest && largest < 1073741824
            invariant
                largest as int == w.spec_largest(),
                w.spec_amplified() == self.spec_amplified(),
                self.spec_gain() == gain * w.spec_gain(),
                1 <= gain <= 2147483648,
                0 < largest ==> gain <= largest,
            decreases w.spec_shortfall(),
        {
            proof {
                lemma_doubled_largest(w);
                assert(gain * (2 * w.spec_doubled().spec_gain()) == (gain * 2)
                    * w.spec_doubled().spec_gain()) by (nonlinear_arith);
            }
            w = Vec3 {
                x: Scalar::from_raw(w.x.raw * 2),
                y: Scalar::from_raw(w.y.raw * 2),
                z: Scalar::from_raw(w.z.raw * 2),
            };
            largest = largest * 2;
            gain = gain * 2;
        }
        proof {
            assert(gain * 1 == gain) by (nonlinear_arith);
        }
        (w, gain)
    }

    /// The vector at unit length, or zero where the vector is zero. The
    /// result of a vector that is not zero has length `1` within four raw
    /// units, which is less than `1e-9`.
    pub fn normalize(&self) -> (r: Self)
        ensures
            r == self.spec_normalize(),
            self.spec_mag().raw > 0 ==> SCALE - 4 <= r.spec_mag().raw <= SCALE + 4,
            self.spec_mag().raw == 0 ==> r == Self::spec_zero(),
    {
        proof {
            lemma_length_zero(*self);
            if self.spec_mag().raw > 0 {
                lemma_normalize_has_unit_length(*self);
            }
        }
        if self.largest() == 0 {
            return Self::origin();
        }
        let (w, _gain) = self.amplified();
        proof {
            lemma_amplified_steady(*self);
        }
        let xx: u128 = square_of(w.x.raw);
        let yy: u128 = square_of(w.y.raw);
        let zz: u128 = square_of(w.z.raw);
        let m: u64 = floor_sqrt_of(xx + yy + zz);
        proof {
            lemma_components_within_length(w);
        }
        Vec3 {
            x: Scalar::from_raw(over(w.x.raw, m)),
            y: Scalar::from_raw(over(w.y.raw, m)),
            z: Scalar::from_raw(over(w.z.raw, m)),
        }
    }

    pub fn dot(&self, other: &Self) -> (r: Scalar)
        ensures
            r == self.spec_dot(*other),
    {
        self.x * other.x + self.y * other.y + self.z * other.z
    }

    pub fn dot_explicit(a: &Self, b: &Self) -> (r: Scalar)
        ensures
            r == a.spec_dot(*b),
    {
        a.x * b.x + a.y * b.y + a.z * b.z
    }

    pub fn cross(&self, other: &Self) -> (r: Self)
        ensures
            r == self.spec_cross(*other),
    {
        Vec3 {
            x: self.y * other.z - self.z * other.y,
            y: self.z * other.x - self.x * other.z,
            z: self.x * other.y - self.y * other.x,
        }
    }

    pub fn unit_vector(v: &Self) -> (r: Self)
        ensures
            r == v.spec_normalize(),
            v.spec_mag().raw > 0 ==> SCALE - 4 <= r.spec_mag().raw <= SCALE + 4,
    {
        v.normalize()
    }

    pub fn near_zero(&self) -> (r: bool)
        ensures
            r == self.spec_near_zero(),
    {
        self.x.abs().raw < NEAR_ZERO_RAW && self.y.abs().raw < NEAR_ZERO_RAW && self.z.abs().raw
            < NEAR_ZERO_RAW
    }

    pub fn reflect(v: &Self, n: &Self) -> (r: Self)
        ensures
            r == Self::spec_reflect(*v, *n),
    {
        *v - *n * (Scalar::from_int(2) * Self::dot_explicit(v, n))
    }

    pub fn refract(uv: &Self, n: &Self, etai_over_etat: Scalar) -> (r: Self)
        ensures
            r == Self::spec_refract(*uv, *n, etai_over_etat),
    {
        let cos_theta: Scalar = Self::dot_explicit(&uv.negate(), n).min(Scalar::one());
        let r_out_perpendicular: Self = (*uv + *n * cos_theta) * etai_over_etat;
        let r_out_parallel: Self = (*n * (Scalar::one() - r_out_perpendicular.dot(
            &r_out_perpendicular,
        )).abs().sqrt()).negate();
        r_out_parallel + r_out_perpendicular
    }

    /// A point of the unit disk in the plane `z = 0`, by rejection.
    pub fn random_in_unit_disk(rng: &mut Rng) -> (r: Self)
        ensures
            (r, *final(rng)) == Self::spec_random_in_unit_disk(*old(rng), MAX_ATTEMPTS as nat),
            Self::spec_in_unit_disk(r),
            r.z.raw == 0,
    {
        let mut remaining: u32 = MAX_ATTEMPTS;
        while remaining > 0
            invariant
                Self::spec_random_in_unit_disk(*old(rng), MAX_ATTEMPTS as nat)
                    == Self::spec_random_in_unit_disk(*rng, remaining as nat),
            decreases remaining,
        {
            let p: Self = Self::disk_candidate(rng);
            if p.dot(&p).raw < SCALE {
                return p;
            }
            remaining = remaining - 1;
        }
        proof {
            lemma_dot_zero();
        }
        Self::origin()
    }

    /// The point of the square `[-1, 1)^2` that the next two draws give.
    fn disk_candidate(rng: &mut Rng) -> (r: Self)
        ensures
            r == Self::spec_disk_candidate(*old(rng)),
            *final(rng) == old(rng).spec_skip(2),
    {
        proof {
            reveal_with_fuel(Rng::spec_skip, 3);
        }
        let x: Scalar = rng.random_float_interval(Scalar::from_int(-1), Scalar::from_int(1));
        let y: Scalar = rng.random_float_interval(Scalar::from_int(-1), Scalar::from_int(1));
        Vec3::new(x, y, Scalar::zero())
    }

    /// A direction of unit length, uniform over the sphere, by rejection.
    pub fn random_unit_vector(rng: &mut Rng) -> (r: Self)
        ensures
            (r, *final(rng)) == Self::spec_random_unit_vector(*old(rng), MAX_ATTEMPTS as nat),
            SCALE - 4 <= r.spec_mag().raw <= SCALE + 4,
    {
        proof {
            lemma_random_unit_vector_length(*rng, MAX_ATTEMPTS as nat);
        }
        Self::first_unit_vector(rng)
    }

    /// The first candidate inside the unit sphere, normalized.
    fn first_unit_vector(rng: &mut Rng) -> (r: Self)
        ensures
            (r, *final(rng)) == Self::spec_random_unit_vector(*old(rng), MAX_ATTEMPTS as nat),
    {
        let mut remaining: u32 = MAX_ATTEMPTS;
        while remaining > 0
            invariant
                Self::spec_random_unit_vector(*old(rng), MAX_ATTEMPTS as nat)
                    == Self::spec_random_unit_vector(*rng, remaining as nat),
            decreases remaining,
        {
            let p: Self = Self::random_range_vec3(rng, Scalar::from_int(-1), Scalar::from_int(1));
            let lensq: Scalar = p.dot(&p);
            if lensq.raw <= SCALE && UNIT_FLOOR_RAW < lensq.raw {
                return p.normalize();
            }
            remaining = remaining - 1;
        }
        Vec3::new(Scalar::one(), Scalar::zero(), Scalar::zero())
    }

    /// A direction of unit length on the side of `normal`.
    pub fn random_on_hemisphere(rng: &mut Rng, normal: &Self) -> (r: Self)
        ensures
            (r, *final(rng)) == Self::spec_random_on_hemisphere(*old(rng), *normal),
    {
        let on_unit_sphere: Self = Self::random_unit_vector(rng);
        if Self::dot_explicit(&on_unit_sphere, normal).raw > 0 {
            on_unit_sphere
        } else {
            on_unit_sphere.negate()
        }
    }

    /// A vector with each component in `[0, 1)`.
    pub fn random_vec3(rng: &mut Rng) -> (r: Self)
        ensures
            r == Self::spec_random_vec3(*old(rng)),
            *final(rng) == old(rng).spec_skip(3),
            0 <= r.x.raw < SCALE && 0 <= r.y.raw < SCALE && 0 <= r.z.raw < SCALE,
    {
        proof {
            reveal_with_fuel(Rng::spec_skip, 4);
        }
        let x: Scalar = rng.random_float();
        let y: Scalar = rng.random_float();
        let z: Scalar = rng.random_float();
        Vec3::new(x, y, z)
    }

    /// A vector with each component in `[min, max)`.
    pub fn random_range_vec3(rng: &mut Rng, min: Scalar, max: Scalar) -> (r: Self)
        ensures
            r == old(rng).spec_range_vec3(min, max),
            *final(rng) == old(rng).spec_skip(3),
            min.raw < max.raw ==> min.raw <= r.x.raw < max.raw && min.raw <= r.y.raw < max.raw
                && min.raw <= r.z.raw < max.raw,
    {
        proof {
            reveal_with_fuel(Rng::spec_skip, 4);
        }
        let x: Scalar = rng.random_float_interval(min, max);
        let y: Scalar = rng.random_float_interval(min, max);
        let z: Scalar = rng.random_float_interval(min, max);
        Vec3::new(x, y, z)
    }
}

impl Default for Vec3<Scalar> {
    fn default() -> (r: Self)
        ensures
            r == Self::spec_zero(),
    {
        Self::origin()
    }
}

impl std::ops::Add for Vec3<Scalar> {
    type Output = Vec3<Scalar>;

    fn add(self, rhs: Vec3<Scalar>) -> (r: Vec3<Scalar>)
        ensures
            r == self.spec_add(rhs),
    {
        Vec3 { x: self.x + rhs.x, y: self.y + rhs.y, z: self.z + rhs.z }
    }
}

impl vstd::std_specs::ops::AddSpecImpl for Vec3<Scalar> {
    open spec fn obeys_add_spec() -> bool {
        true
    }

    open spec fn add_req(self, rhs: Vec3<Scalar>) -> bool {
        true
    }

    open spec fn add_spec(self, rhs: Vec3<Scalar>) -> Vec3<Scalar> {
        self.spec_add(rhs)
    }
}

impl std::ops::Sub for Vec3<Scalar> {
    type Output = Vec3<Scalar>;

    fn sub(self, rhs: Vec3<Scalar>) -> (r: Vec3<Scalar>)
        ensures
            r == self.spec_sub(rhs),
    {
        Vec3 { x: self.x - rhs.x, y: self.y - rhs.y, z: self.z - rhs.z }
    }
}

impl vstd::std_specs::ops::SubSpecImpl for Vec3<Scalar> {
    open spec fn obeys_sub_spec() -> bool {
        true
    }

    open spec fn sub_req(self, rhs: Vec3<Scalar>) -> bool {
        true
    }

    open spec fn sub_spec(self, rhs: Vec3<Scalar>) -> Vec3<Scalar> {
        self.spec_sub(rhs)
    }
}

impl std::ops::Neg for Vec3<Scalar> {
    type Output = Vec3<Scalar>;

    fn neg(self) -> (r: Vec3<Scalar>)
        ensures
            r == self.spec_neg(),
    {
        self.negate()
    }
}

impl vstd::std_specs::ops::NegSpecImpl for Vec3<Scalar> {
    open spec fn obeys_neg_spec() -> bool {
        true
    }

    open spec fn neg_req(self) -> bool {
        true
    }

    open spec fn neg_spec(self) -> Vec3<Scalar> {
        self.spec_neg()
    }
}

impl std::ops::Mul<Scalar> for Vec3<Scalar> {
    type Output = Vec3<Scalar>;

    fn mul(self, scalar: Scalar) -> (r: Vec3<Scalar>)
        ensures
            r == self.spec_scale(scalar),
    {
        Vec3 { x: self.x * scalar, y: self.y * scalar, z: self.z * scalar }
    }
}

impl vstd::std_specs::ops::MulSpecImpl<Scalar> for Vec3<Scalar> {
    open spec fn obeys_mul_spec() -> bool {
        true
    }

    open spec fn mul_req(self, scalar: Scalar) -> bool {
        true
    }

    open spec fn mul_spec(self, scalar: Scalar) -> Vec3<Scalar> {
        self.spec_scale(scalar)
    }
}

impl std::ops::Mul<Vec3<Scalar>> for Scalar {
    type Output = Vec3<Scalar>;

    fn mul(self, other: Vec3<Scalar>) -> (r: Vec3<Scalar>)
        ensures
            r == other.spec_scale(self),
    {
        proof {
            lemma_mul_commutes(self, other.x);
            lemma_mul_commutes(self, other.y);
            lemma_mul_commutes(self, other.z);
        }
        Vec3 { x: self * other.x, y: self * other.y, z: self * other.z }
    }
}

impl vstd::std_specs::ops::MulSpecImpl<Vec3<Scalar>> for Scalar {
    open spec fn obeys_mul_spec() -> bool {
        true
    }

    open spec fn mul_req(self, other: Vec3<Scalar>) -> bool {
        true
    }

    open spec fn mul_spec(self, other: Vec3<Scalar>) -> Vec3<Scalar> {
        other.spec_scale(self)
    }
}

impl std::ops::Mul for Vec3<Scalar> {
    type Output = Vec3<Scalar>;

    fn mul(self, rhs: Vec3<Scalar>) -> (r: Vec3<Scalar>)
        ensures
            r == self.spec_hadamard(rhs),
    {
        Vec3 { x: self.x * rhs.x, y: self.y * rhs.y, z: self.z * rhs.z }
    }
}

impl vstd::std_specs::ops::MulSpecImpl for Vec3<Scalar> {
    open spec fn obeys_mul_spec() -> bool {
        true
    }

    open spec fn mul_req(self, rhs: Vec3<Scalar>) -> bool {
        true
    }

    open spec fn mul_spec(self, rhs: Vec3<Scalar>) -> Vec3<Scalar> {
        self.spec_hadamard(rhs)
    }
}

impl std::ops::Div<Scalar> for Vec3<Scalar> {
    type Output = Vec3<Scalar>;

    fn div(self, scalar: Scalar) -> (r: Vec3<Scalar>)
        ensures
            r == self.spec_shrink(scalar),
    {
        Vec3 { x: self.x / scalar, y: self.y / scalar, z: self.z / scalar }
    }
}

impl vstd::std_specs::ops::DivSpecImpl<Scalar> for Vec3<Scalar> {
    open spec fn obeys_div_spec() -> bool {
        true
    }

    open spec fn div_req(self, scalar: Scalar) -> bool {
        true
    }

    open spec fn div_spec(self, scalar: Scalar) -> Vec3<Scalar> {
        self.spec_shrink(scalar)
    }
}

impl std::ops::AddAssign for Vec3<Scalar> {
    fn add_assign(&mut self, rhs: Vec3<Scalar>)
        ensures
            *final(self) == old(self).spec_add(rhs),
    {
        self.x = self.x + rhs.x;
        self.y = self.y + rhs.y;
        self.z = self.z + rhs.z;
    }
}

impl std::ops::SubAssign for Vec3<Scalar> {
    fn sub_assign(&mut self, rhs: Vec3<Scalar>)
        ensures
            *final(self) == old(self).spec_sub(rhs),
    {
        self.x = self.x - rhs.x;
        self.y = self.y - rhs.y;
        self.z = self.z - rhs.z;
    }
}

impl std::ops::MulAssign<Scalar> for Vec3<Scalar> {
    fn mul_assign(&mut self, scalar: Scalar)
        ensures
            *final(self) == old(self).spec_scale(scalar),
    {
        self.x = self.x * scalar;
        self.y = self.y * scalar;
        self.z = self.z * scalar;
    }
}

impl std::ops::DivAssign<Scalar> for Vec3<Scalar> {
    fn div_assign(&mut self, scalar: Scalar)
        ensures
            *final(self) == old(self).spec_shrink(scalar),
    {
        self.x = self.x / scalar;
        self.y = self.y / scalar;
        self.z = self.z / scalar;
    }
}

} // verus!
