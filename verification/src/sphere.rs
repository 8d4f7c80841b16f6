//! Spheres, and where a ray meets one.
//!
//! A ray `origin + t * direction` meets the sphere where
//! `a * t^2 - 2 * h * t + c = 0`, with `a = dot(direction, direction)`,
//! `h = dot(direction, oc)` and `c = dot(oc, oc) - radius^2`: at
//! `(h - sqrt(h^2 - a * c)) / a` and `(h + sqrt(h^2 - a * c)) / a`, if the
//! discriminant `h^2 - a * c` is not negative. In fixed point the two terms of
//! the discriminant are large and nearly equal, and their difference loses
//! what the roots need. So within `spec_in_range` the same roots are taken in
//! the form `h / a - s` and `h / a + s`: `h / a` is the parameter of the point
//! of the line nearest to the centre, from the exact sums of products, and
//! `s = sqrt((radius^2 - p^2) / a)` half the chord, with `p` the distance of
//! that point from the centre; `radius^2 - p^2` is the discriminant over `a`.
//! A short direction is amplified first, and the roots scaled back. The
//! outward normal `(point - center) / radius` is taken as the unit vector
//! along `point - center`, which it is for a point on the sphere.

use vstd::prelude::*;
use crate::arith::floor_sqrt;
use crate::arith::floor_sqrt_of;
use crate::arith::lemma_floor_sqrt_bound;
use crate::arith::lemma_floor_sqrt_exists;
use crate::arith::quot_toward_zero;
use crate::arith::saturate;
use crate::hittable::HitRecord;
use crate::hittable::Hittable;
use crate::hittable::lemma_face_normal_opposes_ray;
use crate::interval::Interval;
use crate::material::AnyMaterial;
use crate::ray::Ray;
use crate::scalar::MODERATE_RAW;
use crate::scalar::Scalar;
use crate::scalar::SCALE;
use crate::scalar_laws::lemma_div_monotone;
use crate::scalar_laws::lemma_mul_zero;
use crate::scalar_laws::lemma_sqrt_nonnegative;
use crate::vec3::square_of;
use crate::vec3::Vec3;
use crate::vec3_laws::lemma_amplified_moderate;
use crate::vec3_laws::lemma_dot_self_nonnegative;
use crate::vec3_laws::lemma_gain_positive;
use crate::vec3_laws::lemma_largest_bounds;
use crate::vec3_laws::lemma_length_zero;
use crate::vec3_laws::lemma_normalize_unit_or_zero;
use crate::vec3_laws::lemma_opposite_has_same_length;
use crate::vec3_laws::raw_dot;

verus! {

/// Raw value of `4096`: the size of centre, origin and radius up to which a
/// hit is searched on exact sums of products.
pub const HIT_RANGE_RAW: i64 = 17592186044416;

/// The points at distance `radius` from `center`, made of `mat`.
#[derive(Clone, Copy, Debug, PartialEq, Eq, Structural)]
pub struct Sphere {
    pub center: Vec3<Scalar>,
    pub radius: Scalar,
    pub mat: AnyMaterial,
}

impl Sphere {
    /// From the ray's origin to the centre.
    pub open spec fn spec_oc(self, ray: Ray) -> Vec3<Scalar> {
        self.center.spec_sub(ray.origin)
    }

    /// The squared length of the ray's direction.
    pub open spec fn spec_a(ray: Ray) -> Scalar {
        ray.direction.spec_dot(ray.direction)
    }

    pub open spec fn spec_h(self, ray: Ray) -> Scalar {
        ray.direction.spec_dot(self.spec_oc(ray))
    }

    pub open spec fn spec_c(self, ray: Ray) -> Scalar {
        self.spec_oc(ray).spec_dot(self.spec_oc(ray)).spec_sub(self.radius.spec_mul(self.radius))
    }

    /// `h^2 - a * c`: below zero where the ray's line misses the sphere.
    pub open spec fn spec_discriminant(self, ray: Ray) -> Scalar {
        self.spec_h(ray).spec_mul(self.spec_h(ray)).spec_sub(
            Self::spec_a(ray).spec_mul(self.spec_c(ray)),
        )
    }

    /// `(h - sqrt(discriminant)) / a`: where the line enters the sphere.
    pub open spec fn spec_near_root(self, ray: Ray) -> Scalar {
        self.spec_h(ray).spec_sub(self.spec_discriminant(ray).spec_sqrt()).spec_div(
            Self::spec_a(ray),
        )
    }

    /// `(h + sqrt(discriminant)) / a`: where the line leaves the sphere.
    pub open spec fn spec_far_root(self, ray: Ray) -> Scalar {
        self.spec_h(ray).spec_add(self.spec_discriminant(ray).spec_sqrt()).spec_div(
            Self::spec_a(ray),
        )
    }

    /// The ray with its direction amplified: the same line, at a speed that
    /// the arithmetic can hold.
    pub open spec fn spec_steady(ray: Ray) -> Ray {
        Ray { origin: ray.origin, direction: ray.direction.spec_amplified() }
    }

    /// The sizes at which the search for a hit is carried out on exact sums
    /// of products, so that nothing is lost before the last rounding: centre,
    /// origin and radius up to `4096`, and no component of the direction
    /// beyond `16384`. Beyond them the search falls back on the discriminant
    /// in rounded and saturating arithmetic.
    pub open spec fn spec_in_range(self, ray: Ray) -> bool {
        &&& -HIT_RANGE_RAW <= self.center.x.raw <= HIT_RANGE_RAW
        &&& -HIT_RANGE_RAW <= self.center.y.raw <= HIT_RANGE_RAW
        &&& -HIT_RANGE_RAW <= self.center.z.raw <= HIT_RANGE_RAW
        &&& -HIT_RANGE_RAW <= ray.origin.x.raw <= HIT_RANGE_RAW
        &&& -HIT_RANGE_RAW <= ray.origin.y.raw <= HIT_RANGE_RAW
        &&& -HIT_RANGE_RAW <= ray.origin.z.raw <= HIT_RANGE_RAW
        &&& -HIT_RANGE_RAW <= self.radius.raw <= HIT_RANGE_RAW
        &&& ray.direction.spec_largest() <= MODERATE_RAW
    }

    /// The parameter of the point of the ray's line that is nearest to the
    /// centre: `dot(direction, oc) / dot(direction, direction)`, from the
    /// exact sums of products, rounded once.
    pub open spec fn spec_foot(self, ray: Ray) -> Scalar {
        if ray.direction.spec_norm_sq() == 0 {
            Scalar::spec_zero()
        } else {
            Scalar {
                raw: saturate(
                    quot_toward_zero(
                        raw_dot(ray.direction, self.spec_oc(ray)) * SCALE,
                        ray.direction.spec_norm_sq(),
                    ),
                ) as i64,
            }
        }
    }

    /// From the nearest point of the ray's line to the centre.
    pub open spec fn spec_perpendicular(self, ray: Ray) -> Vec3<Scalar> {
        self.spec_oc(ray).spec_sub(ray.direction.spec_scale(self.spec_foot(ray)))
    }

    /// The square of the radius less the square of the distance of the line
    /// from the centre, in squares of raw units: below zero where the line
    /// misses the sphere.
    pub open spec fn spec_clearance(self, ray: Ray) -> int {
        self.radius.raw * self.radius.raw - self.spec_perpendicular(ray).spec_norm_sq()
    }

    /// Half the length of the line inside the sphere, as a difference of
    /// parameters: the root of the clearance over the length of the
    /// direction.
    pub open spec fn spec_half_chord(self, ray: Ray) -> Scalar {
        if ray.direction.spec_norm_sq() == 0 || self.spec_clearance(ray) < 0 {
            Scalar::spec_zero()
        } else {
            Scalar {
                raw: saturate(
                    (floor_sqrt(self.spec_clearance(ray) * 0x1_0000_0000) * 0x2_0000_0000)
                        / floor_sqrt(ray.direction.spec_norm_sq() * 0x4_0000_0000),
                ) as i64,
            }
        }
    }

    /// The line of the ray misses the sphere.
    pub open spec fn spec_misses(self, ray: Ray) -> bool {
        if self.spec_in_range(ray) {
            self.spec_clearance(Self::spec_steady(ray)) < 0
        } else {
            self.spec_discriminant(Self::spec_steady(ray)).raw < 0
        }
    }

    /// Where the amplified ray enters the sphere.
    pub open spec fn spec_steady_near(self, ray: Ray) -> Scalar {
        if self.spec_in_range(ray) {
            self.spec_foot(Self::spec_steady(ray)).spec_sub(
                self.spec_half_chord(Self::spec_steady(ray)),
            )
        } else {
            self.spec_near_root(Self::spec_steady(ray))
        }
    }

    /// Where the amplified ray leaves the sphere.
    pub open spec fn spec_steady_far(self, ray: Ray) -> Scalar {
        if self.spec_in_range(ray) {
            self.spec_foot(Self::spec_steady(ray)).spec_add(
                self.spec_half_chord(Self::spec_steady(ray)),
            )
        } else {
            self.spec_far_root(Self::spec_steady(ray))
        }
    }

    /// Where the ray enters the sphere: where the amplified ray does, times
    /// the power of two by which the direction grew. A ray so slow that this
    /// parameter is beyond the range gets the largest scalar, which no
    /// interval surrounds.
    pub open spec fn spec_near(self, ray: Ray) -> Scalar {
        self.spec_steady_near(ray).spec_times(ray.direction.spec_gain())
    }

    /// Where the ray leaves the sphere.
    pub open spec fn spec_far(self, ray: Ray) -> Scalar {
        self.spec_steady_far(ray).spec_times(ray.direction.spec_gain())
    }

    /// Where the ray enters the sphere if the interval surrounds that, else
    /// where it leaves the sphere if the interval surrounds that.
    pub open spec fn spec_root(self, ray: Ray, interval: Interval) -> Option<Scalar> {
        if self.spec_misses(ray) {
            None
        } else if interval.spec_surrounds(self.spec_near(ray)) {
            Some(self.spec_near(ray))
        } else if interval.spec_surrounds(self.spec_far(ray)) {
            Some(self.spec_far(ray))
        } else {
            None
        }
    }

    /// From the centre toward the point of the ray at `root`, at unit length;
    /// the other way for a sphere of negative radius.
    pub open spec fn spec_outward_normal(self, ray: Ray, root: Scalar) -> Vec3<Scalar> {
        if self.radius.raw < 0 {
            ray.spec_at(root).spec_sub(self.center).spec_normalize().spec_neg()
        } else {
            ray.spec_at(root).spec_sub(self.center).spec_normalize()
        }
    }

    /// The record of the hit at `root`. The face is told by the amplified
    /// direction, which a short direction would be too short to tell.
    pub open spec fn spec_record(self, ray: Ray, root: Scalar) -> HitRecord {
        HitRecord {
            t: root,
            point: ray.spec_at(root),
            mat: self.mat,
            normal: HitRecord::spec_face_normal(
                Self::spec_steady(ray),
                self.spec_outward_normal(ray, root),
            ),
            front_face: HitRecord::spec_front_face(
                Self::spec_steady(ray),
                self.spec_outward_normal(ray, root),
            ),
        }
    }

    /// The hit at the root that the interval admits.
    pub open spec fn spec_intersect(self, ray: Ray, interval: Interval) -> Option<HitRecord> {
        match self.spec_root(ray, interval) {
            Some(root) => Some(self.spec_record(ray, root)),
            None => None,
        }
    }

    pub fn new(center: Vec3<Scalar>, radius: Scalar, mat: AnyMaterial) -> (r: Self)
        ensures
            r.center == center,
            r.radius == radius,
            r.mat == mat,
    {
        Self { center, radius, mat }
    }
}

/// The line enters a sphere no later than it leaves it.
pub proof fn lemma_roots_ordered(sphere: Sphere, ray: Ray)
    ensures
        sphere.spec_near(ray).raw <= sphere.spec_far(ray).raw,
{
    let steady = Sphere::spec_steady(ray);
    lemma_steady_roots_ordered(sphere, steady);
    lemma_half_chord_nonnegative(sphere, steady);
    lemma_gain_positive(ray.direction);
    let gain = ray.direction.spec_gain();
    let near = sphere.spec_steady_near(ray).raw;
    let far = sphere.spec_steady_far(ray).raw;
    assert(near <= far);
    assert(near * gain <= far * gain) by (nonlinear_arith)
        requires
            near <= far,
            0 < gain,
    ;
}

/// Half a chord is never negative, and the root that it is divided by is
/// positive where the ray has a direction.
pub proof fn lemma_half_chord_nonnegative(sphere: Sphere, ray: Ray)
    ensures
        0 <= sphere.spec_half_chord(ray).raw,
        0 <= ray.direction.spec_norm_sq(),
        ray.direction.spec_norm_sq() > 0 ==> floor_sqrt(
            ray.direction.spec_norm_sq() * 0x4_0000_0000,
        ) >= 1,
{
    let a = ray.direction.spec_norm_sq();
    let clearance = sphere.spec_clearance(ray);
    assert(0 <= a) by (nonlinear_arith)
        requires
            a == ray.direction.x.raw * ray.direction.x.raw + ray.direction.y.raw
                * ray.direction.y.raw + ray.direction.z.raw * ray.direction.z.raw,
    ;
    if a != 0 {
        lemma_floor_sqrt_exists(a * 0x4_0000_0000);
        let bottom = floor_sqrt(a * 0x4_0000_0000);
        assert(bottom >= 1) by (nonlinear_arith)
            requires
                0 <= bottom,
                a * 0x4_0000_0000 < (bottom + 1) * (bottom + 1),
                1 <= a,
        ;
        if clearance >= 0 {
            lemma_floor_sqrt_exists(clearance * 0x1_0000_0000);
            let top = floor_sqrt(clearance * 0x1_0000_0000) * 0x2_0000_0000;
            vstd::arithmetic::div_mod::lemma_div_pos_is_pos(top, bottom);
        }
    }
}

/// The roots of the quadratic come in order.
proof fn lemma_steady_roots_ordered(sphere: Sphere, ray: Ray)
    ensures
        sphere.spec_near_root(ray).raw <= sphere.spec_far_root(ray).raw,
{
    let root = sphere.spec_discriminant(ray).spec_sqrt();
    let h = sphere.spec_h(ray);
    lemma_sqrt_nonnegative(sphere.spec_discriminant(ray));
    lemma_dot_self_nonnegative(ray.direction);
    assert(h.spec_sub(root).raw <= h.spec_add(root).raw);
    lemma_div_monotone(h.spec_sub(root), h.spec_add(root), Sphere::spec_a(ray));
}

/// The normal of a hit is turned against the ray, whatever the length of the
/// ray's direction: its dot product with the amplified direction is not
/// positive, for a direction of moderate size.
pub proof fn lemma_normal_opposes_ray(sphere: Sphere, ray: Ray, root: Scalar)
    requires
        ray.direction.spec_largest() <= MODERATE_RAW,
    ensures
        Sphere::spec_steady(ray).direction.spec_dot(sphere.spec_record(ray, root).normal).raw <= 0,
        sphere.spec_record(ray, root).front_face == (Sphere::spec_steady(ray).direction.spec_dot(
            sphere.spec_outward_normal(ray, root),
        ).raw < 0),
{
    let steady = Sphere::spec_steady(ray);
    let away = ray.spec_at(root).spec_sub(sphere.center);
    lemma_amplified_moderate(ray.direction);
    lemma_largest_bounds(steady.direction);
    lemma_normalize_unit_or_zero(away);
    lemma_face_normal_opposes_ray(steady, sphere.spec_outward_normal(ray, root));
}

/// The normal of a hit has length `1` within four raw units, unless the hit
/// lies on the centre.
pub proof fn lemma_normal_has_unit_length(sphere: Sphere, ray: Ray, root: Scalar)
    ensures
        sphere.spec_record(ray, root).normal.spec_unit_or_zero(),
        ray.spec_at(root) != sphere.center ==> SCALE - 4 <= sphere.spec_record(
            ray,
            root,
        ).normal.spec_mag().raw <= SCALE + 4,
{
    let away = ray.spec_at(root).spec_sub(sphere.center);
    lemma_normalize_unit_or_zero(away);
    lemma_length_zero(away);
    lemma_largest_bounds(away);
    lemma_opposite_has_same_length(away.spec_normalize());
    lemma_opposite_has_same_length(away.spec_normalize().spec_neg());
    if ray.spec_at(root) != sphere.center {
        assert(away != Vec3::<Scalar>::spec_zero());
    }
}

/// A ray without a direction goes nowhere and hits nothing, as long as the
/// interval starts at zero or later.
pub proof fn lemma_still_ray_hits_nothing(sphere: Sphere, ray: Ray, interval: Interval)
    requires
        ray.direction == Vec3::<Scalar>::spec_zero(),
        0 <= interval.min.raw,
    ensures
        sphere.spec_intersect(ray, interval) is None,
{
    let oc = sphere.spec_oc(ray);
    assert(ray.direction.spec_largest() == 0);
    assert(Sphere::spec_steady(ray) == ray);
    assert(ray.direction.spec_gain() == 1);
    lemma_mul_zero(oc.x);
    lemma_mul_zero(oc.y);
    lemma_mul_zero(oc.z);
    lemma_mul_zero(Scalar::spec_zero());
    lemma_mul_zero(sphere.spec_c(ray));
    assert(Sphere::spec_a(ray).raw == 0);
    assert(sphere.spec_h(ray).raw == 0);
    assert(sphere.spec_discriminant(ray).raw == 0);
    assert(sphere.spec_near_root(ray).raw == 0);
    assert(sphere.spec_far_root(ray).raw == 0);
    assert(ray.direction.spec_norm_sq() == 0) by (nonlinear_arith)
        requires
            ray.direction.spec_norm_sq() == ray.direction.x.raw * ray.direction.x.raw
                + ray.direction.y.raw * ray.direction.y.raw + ray.direction.z.raw
                * ray.direction.z.raw,
            ray.direction.x.raw == 0,
            ray.direction.y.raw == 0,
            ray.direction.z.raw == 0,
    ;
    assert(sphere.spec_foot(ray).raw == 0);
    assert(sphere.spec_half_chord(ray).raw == 0);
    assert(sphere.spec_steady_near(ray).raw == 0);
    assert(sphere.spec_steady_far(ray).raw == 0);
    assert(sphere.spec_near(ray).raw == 0);
    assert(sphere.spec_far(ray).raw == 0);
}

impl Hittable for Sphere {
    open spec fn spec_hit(&self, ray: Ray, interval: Interval) -> Option<HitRecord> {
        self.spec_intersect(ray, interval)
    }

    proof fn lemma_hit_surrounded(&self, ray: Ray, interval: Interval) {
    }

    proof fn lemma_hit_narrowed(&self, ray: Ray, interval: Interval, upper: Scalar) {
        lemma_roots_ordered(*self, ray);
    }

    fn hit(&self, ray: &Ray, interval: &Interval) -> (r: Option<HitRecord>)
        ensures
            r == self.spec_intersect(*ray, *interval),
            r matches Some(record) ==> interval.spec_surrounds(record.t) && record.point
                == ray.spec_at(record.t) && record.mat == self.mat
                && record.normal.spec_unit_or_zero(),
    {
        let (direction, _gain) = ray.direction().amplified();
        let steady: Ray = Ray::new(*ray.origin(), direction);
        let (near, far) = match self.roots(ray) {
            Some(pair) => pair,
            None => {
                return None;
            },
        };
        let mut root: Scalar = near;
        if !interval.surrounds(root) {
            root = far;
            if !interval.surrounds(root) {
                return None;
            }
        }
        proof {
            lemma_normal_has_unit_length(*self, *ray, root);
        }
        let mut hit_record: HitRecord = HitRecord::default();
        hit_record.t = root;
        hit_record.point = ray.at(root);
        let away: Vec3<Scalar> = (hit_record.point - self.center).normalize();
        let outward_normal: Vec3<Scalar> = if self.radius.raw < 0 {
            away.negate()
        } else {
            away
        };
        hit_record.set_face_normal(&steady, &outward_normal);
        hit_record.mat = self.mat;
        Some(hit_record)
    }
}

/// The product of two raw values of moderate size.
fn wide_product(a: i64, b: i64) -> (r: i128)
    requires
        -MODERATE_RAW <= a <= MODERATE_RAW,
        -MODERATE_RAW <= b <= MODERATE_RAW,
    ensures
        r == a * b,
        -0x1000_0000_0000_0000_0000_0000 <= r <= 0x1000_0000_0000_0000_0000_0000,
{
    assert(-0x1000_0000_0000_0000_0000_0000 <= a * b <= 0x1000_0000_0000_0000_0000_0000)
        by (nonlinear_arith)
        requires
            -0x4000_0000_0000 <= a <= 0x4000_0000_0000,
            -0x4000_0000_0000 <= b <= 0x4000_0000_0000,
    ;
    (a as i128) * (b as i128)
}

/// A quotient of wide values, rounded toward zero.
fn wide_quotient(n: i128, d: u128) -> (r: i128)
    requires
        0 < d <= 0x4000_0000_0000_0000_0000_0000_0000_0000,
        -0x4000_0000_0000_0000_0000_0000_0000_0000 <= n <= 0x4000_0000_0000_0000_0000_0000_0000_0000,
    ensures
        r == quot_toward_zero(n as int, d as int),
{
    if n >= 0 {
        proof {
            vstd::arithmetic::div_mod::lemma_div_is_ordered_by_denominator(n as int, 1, d as int);
        }
        let q: u128 = (n as u128) / d;
        q as i128
    } else {
        let m: u128 = (-n) as u128;
        proof {
            vstd::arithmetic::div_mod::lemma_div_is_ordered_by_denominator(m as int, 1, d as int);
        }
        let q: u128 = m / d;
        -(q as i128)
    }
}

impl Sphere {
    /// The settings lie within the sizes of `spec_in_range`.
    pub fn in_range(&self, ray: &Ray) -> (r: bool)
        ensures
            r == self.spec_in_range(*ray),
    {
        let limit: i64 = HIT_RANGE_RAW;
        -limit <= self.center.x.raw && self.center.x.raw <= limit && -limit <= self.center.y.raw
            && self.center.y.raw <= limit && -limit <= self.center.z.raw && self.center.z.raw
            <= limit && -limit <= ray.origin.x.raw && ray.origin.x.raw <= limit && -limit
            <= ray.origin.y.raw && ray.origin.y.raw <= limit && -limit <= ray.origin.z.raw
            && ray.origin.z.raw <= limit && -limit <= self.radius.raw && self.radius.raw <= limit
            && ray.direction.largest() <= 70368744177664u64
    }

    /// Where a ray enters and leaves the sphere, or `None` where its line
    /// misses the sphere.
    pub fn roots(&self, ray: &Ray) -> (r: Option<(Scalar, Scalar)>)
        ensures
            r is None <==> self.spec_misses(*ray),
            r matches Some(pair) ==> pair.0 == self.spec_near(*ray) && pair.1 == self.spec_far(
                *ray,
            ) && pair.0.raw <= pair.1.raw,
    {
        proof {
            lemma_roots_ordered(*self, *ray);
        }
        let (direction, gain) = ray.direction().amplified();
        let steady: Ray = Ray::new(*ray.origin(), direction);
        let roots: Option<(Scalar, Scalar)> = if self.in_range(ray) {
            proof {
                lemma_amplified_moderate(ray.direction);
            }
            self.chord(&steady)
        } else {
            self.rounded_roots(&steady)
        };
        match roots {
            Some((near, far)) => Some((near.times(gain), far.times(gain))),
            None => None,
        }
    }

    /// Where a ray enters and leaves the sphere, from exact sums of products;
    /// `None` where its line misses the sphere.
    fn chord(&self, ray: &Ray) -> (r: Option<(Scalar, Scalar)>)
        requires
            -HIT_RANGE_RAW <= self.center.x.raw <= HIT_RANGE_RAW,
            -HIT_RANGE_RAW <= self.center.y.raw <= HIT_RANGE_RAW,
            -HIT_RANGE_RAW <= self.center.z.raw <= HIT_RANGE_RAW,
            -HIT_RANGE_RAW <= ray.origin.x.raw <= HIT_RANGE_RAW,
            -HIT_RANGE_RAW <= ray.origin.y.raw <= HIT_RANGE_RAW,
            -HIT_RANGE_RAW <= ray.origin.z.raw <= HIT_RANGE_RAW,
            -HIT_RANGE_RAW <= self.radius.raw <= HIT_RANGE_RAW,
            ray.direction.spec_largest() <= MODERATE_RAW,
        ensures
            r is None <==> self.spec_clearance(*ray) < 0,
            r matches Some(pair) ==> pair.0 == self.spec_foot(*ray).spec_sub(
                self.spec_half_chord(*ray),
            ) && pair.1 == self.spec_foot(*ray).spec_add(self.spec_half_chord(*ray)),
    {
        let oc: Vec3<Scalar> = self.center - ray.origin;
        let d: Vec3<Scalar> = ray.direction;
        proof {
            lemma_largest_bounds(d);
        }
        let a: u128 = d.norm_sq();
        assert(a <= 0x3000_0000_0000_0000_0000_0000u128) by (nonlinear_arith)
            requires
                a == d.x.raw * d.x.raw + d.y.raw * d.y.raw + d.z.raw * d.z.raw,
                -0x4000_0000_0000 <= d.x.raw <= 0x4000_0000_0000,
                -0x4000_0000_0000 <= d.y.raw <= 0x4000_0000_0000,
                -0x4000_0000_0000 <= d.z.raw <= 0x4000_0000_0000,
        ;
        let foot: Scalar = if a == 0 {
            Scalar::zero()
        } else {
            let hx: i128 = wide_product(d.x.raw, oc.x.raw);
            let hy: i128 = wide_product(d.y.raw, oc.y.raw);
            let hz: i128 = wide_product(d.z.raw, oc.z.raw);
            let h: i128 = hx + hy + hz;
            assert(h == raw_dot(d, oc));
            Scalar::from_wide(wide_quotient(h * 4294967296i128, a))
        };
        let perpendicular: Vec3<Scalar> = oc - d * foot;
        let p2: u128 = perpendicular.norm_sq();
        let r2: u128 = square_of(self.radius.raw);
        if p2 > r2 {
            return None;
        }
        let half: Scalar = if a == 0 {
            Scalar::zero()
        } else {
            let clearance: u128 = r2 - p2;
            assert(r2 <= 0x100_0000_0000_0000_0000_0000u128) by (nonlinear_arith)
                requires
                    r2 == self.radius.raw * self.radius.raw,
                    -0x1000_0000_0000 <= self.radius.raw <= 0x1000_0000_0000,
            ;
            let top: u64 = floor_sqrt_of(clearance * 0x1_0000_0000u128);
            let bottom: u64 = floor_sqrt_of(a * 0x4_0000_0000u128);
            proof {
                lemma_half_chord_nonnegative(*self, *ray);
                assert(0x2000_0000_0000_0000int * 0x2000_0000_0000_0000int
                    == 0x400_0000_0000_0000_0000_0000_0000_0000int) by (nonlinear_arith);
                lemma_floor_sqrt_bound(
                    (clearance * 0x1_0000_0000) as int,
                    0x2000_0000_0000_0000int,
                );
            }
            Scalar::from_wide((((top as u128) * 0x2_0000_0000u128) / (bottom as u128)) as i128)
        };
        Some((foot - half, foot + half))
    }

    /// Where a ray enters and leaves the sphere, from the discriminant in
    /// rounded and saturating arithmetic; `None` where the discriminant is
    /// negative.
    fn rounded_roots(&self, ray: &Ray) -> (r: Option<(Scalar, Scalar)>)
        ensures
            r is None <==> self.spec_discriminant(*ray).raw < 0,
            r matches Some(pair) ==> pair.0 == self.spec_near_root(*ray) && pair.1
                == self.spec_far_root(*ray),
    {
        let oc: Vec3<Scalar> = self.center - ray.origin;
        let a: Scalar = ray.direction.dot(&ray.direction);
        let c: Scalar = oc.dot(&oc) - self.radius * self.radius;
        let h: Scalar = ray.direction.dot(&oc);
        let h_discriminant: Scalar = h * h - a * c;
        if h_discriminant.raw < 0 {
            return None;
        }
        let sqrt_d: Scalar = h_discriminant.sqrt();
        Some(((h - sqrt_d) / a, (h + sqrt_d) / a))
    }
}

} // verus!
