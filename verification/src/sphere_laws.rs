//! What holds of the hits of rays that look down the `z` axis, as the rays of
//! a camera in its default pose do through the middle of its image.

use vstd::prelude::*;
use crate::arith::floor_sqrt;
use crate::arith::is_floor_sqrt;
use crate::arith::lemma_floor_sqrt_unique;
use crate::arith::lemma_quot_of_multiple;
use crate::arith::magnitude;
use crate::camera::spec_trace_interval;
use crate::camera::T_MIN_RAW;
use crate::interval::Interval;
use crate::material::AnyMaterial;
use crate::ray::Ray;
use crate::scalar::Scalar;
use crate::scalar::SCALE;
use crate::scalar_laws::lemma_mul_zero;
use crate::sphere::Sphere;
use crate::sphere::HIT_RANGE_RAW;
use crate::vec3::Vec3;
use crate::vec3_laws::lemma_gain_positive;
use crate::vec3_laws::lemma_normalize_along_z;

verus! {

/// The ray from `origin` down the `z` axis, at unit speed.
pub open spec fn ray_down_z(origin: Vec3<Scalar>) -> Ray {
    Ray {
        origin,
        direction: Vec3 {
            x: Scalar::spec_zero(),
            y: Scalar::spec_zero(),
            z: Scalar::spec_from_int(-1),
        },
    }
}

/// The sphere whose centre lies `ahead` of `origin` down the `z` axis and
/// `aside` of it along the `x` axis.
pub open spec fn sphere_from(
    origin: Vec3<Scalar>,
    ahead: Scalar,
    aside: Scalar,
    radius: Scalar,
    mat: AnyMaterial,
) -> Sphere {
    Sphere {
        center: Vec3 { x: origin.x.spec_add(aside), y: origin.y, z: origin.z.spec_sub(ahead) },
        radius,
        mat,
    }
}

/// A scalar of magnitude up to `2048`.
pub open spec fn within_half_range(x: Scalar) -> bool {
    -HIT_RANGE_RAW <= 2 * x.raw <= HIT_RANGE_RAW
}

/// The sizes at which the sphere and the ray lie within the range of the
/// exact search: origin and offsets up to `2048`, radius up to `4096`.
pub open spec fn setting_in_range(
    origin: Vec3<Scalar>,
    ahead: Scalar,
    aside: Scalar,
    radius: Scalar,
) -> bool {
    &&& within_half_range(origin.x) && within_half_range(origin.y) && within_half_range(origin.z)
    &&& within_half_range(ahead)
    &&& within_half_range(aside)
    &&& -HIT_RANGE_RAW <= radius.raw <= HIT_RANGE_RAW
}

/// The unit vector up the `z` axis, against a ray that runs down it.
pub open spec fn unit_z() -> Vec3<Scalar> {
    Vec3 { x: Scalar::spec_zero(), y: Scalar::spec_zero(), z: Scalar::spec_one() }
}

/// `point` lies on the line through the centre of the sphere, at exactly the
/// radius from the centre.
pub open spec fn on_sphere(
    origin: Vec3<Scalar>,
    ahead: Scalar,
    radius: Scalar,
    point: Vec3<Scalar>,
) -> bool {
    &&& point.x == origin.x
    &&& point.y == origin.y
    &&& magnitude(point.z.raw - (origin.z.raw - ahead.raw)) == magnitude(radius.raw as int)
}

/// Minus one times a scalar up to `2048` is its opposite.
pub proof fn lemma_mul_minus_one(x: Scalar)
    requires
        -0x1_0000_0000_0000 <= x.raw <= 0x1_0000_0000_0000,
    ensures
        Scalar::spec_from_int(-1).spec_mul(x).raw == -x.raw,
{
    let minus = Scalar::spec_from_int(-1);
    assert(minus.raw == -SCALE);
    assert(minus.raw * x.raw == (-x.raw) * SCALE) by (nonlinear_arith)
        requires
            minus.raw == -SCALE,
    ;
    lemma_quot_of_multiple(-x.raw, SCALE as int);
}

/// The ray down the `z` axis at unit speed is steady as it is.
pub proof fn lemma_down_z_is_steady(origin: Vec3<Scalar>)
    ensures
        Sphere::spec_steady(ray_down_z(origin)) == ray_down_z(origin),
        ray_down_z(origin).direction.spec_gain() == 1,
        ray_down_z(origin).direction.spec_largest() == SCALE,
        ray_down_z(origin).direction.spec_norm_sq() == SCALE * SCALE,
{
    lemma_gain_positive(ray_down_z(origin).direction);
    let d = ray_down_z(origin).direction;
    assert(d.z.raw == -SCALE);
    assert(d.spec_norm_sq() == SCALE * SCALE) by (nonlinear_arith)
        requires
            d.spec_norm_sq() == d.x.raw * d.x.raw + d.y.raw * d.y.raw + d.z.raw * d.z.raw,
            d.x.raw == 0,
            d.y.raw == 0,
            d.z.raw == -SCALE,
    ;
}

/// For a ray down the `z` axis, the point of its line nearest to the centre
/// lies as far ahead as the centre does, the centre lies as far from the
/// line as it lies aside, and the clearance is the square of the radius less
/// the square of that.
pub proof fn lemma_down_z_quantities(
    origin: Vec3<Scalar>,
    ahead: Scalar,
    aside: Scalar,
    radius: Scalar,
    mat: AnyMaterial,
)
    requires
        setting_in_range(origin, ahead, aside, radius),
    ensures
        sphere_from(origin, ahead, aside, radius, mat).spec_in_range(ray_down_z(origin)),
        sphere_from(origin, ahead, aside, radius, mat).spec_foot(ray_down_z(origin)) == ahead,
        sphere_from(origin, ahead, aside, radius, mat).spec_perpendicular(ray_down_z(origin)) == (
        Vec3 { x: aside, y: Scalar::spec_zero(), z: Scalar::spec_zero() }),
        sphere_from(origin, ahead, aside, radius, mat).spec_clearance(ray_down_z(origin))
            == radius.raw * radius.raw - aside.raw * aside.raw,
{
    let ray = ray_down_z(origin);
    let sphere = sphere_from(origin, ahead, aside, radius, mat);
    let zero = Scalar::spec_zero();
    let d = ray.direction;
    lemma_down_z_is_steady(origin);
    let oc = sphere.spec_oc(ray);
    assert(oc.x == aside);
    assert(oc.y == zero);
    assert(oc.z.raw == -ahead.raw);
    let h = crate::vec3_laws::raw_dot(d, oc);
    assert(d.z.raw == -SCALE);
    assert(h == SCALE * ahead.raw) by (nonlinear_arith)
        requires
            h == d.x.raw * oc.x.raw + d.y.raw * oc.y.raw + d.z.raw * oc.z.raw,
            d.x.raw == 0,
            d.y.raw == 0,
            d.z.raw == -SCALE,
            oc.z.raw == -ahead.raw,
    ;
    assert(h * SCALE == ahead.raw * (SCALE * SCALE)) by (nonlinear_arith)
        requires
            h == SCALE * ahead.raw,
    ;
    assert(0 < SCALE * SCALE) by (nonlinear_arith)
        requires
            SCALE == 4294967296,
    ;
    lemma_quot_of_multiple(ahead.raw as int, SCALE * SCALE);
    assert(sphere.spec_foot(ray) == ahead);
    lemma_mul_zero(ahead);
    lemma_mul_minus_one(ahead);
    let reach = d.spec_scale(ahead);
    assert(reach.x == zero);
    assert(reach.y == zero);
    assert(reach.z.raw == -ahead.raw);
    let perpendicular = sphere.spec_perpendicular(ray);
    assert(perpendicular == (Vec3 { x: aside, y: zero, z: zero }));
    assert(perpendicular.spec_norm_sq() == aside.raw * aside.raw) by (nonlinear_arith)
        requires
            perpendicular.spec_norm_sq() == perpendicular.x.raw * perpendicular.x.raw
                + perpendicular.y.raw * perpendicular.y.raw + perpendicular.z.raw
                * perpendicular.z.raw,
            perpendicular.x.raw == aside.raw,
            perpendicular.y.raw == 0,
            perpendicular.z.raw == 0,
    ;
}

/// For a ray down the `z` axis through the centre of a sphere, half the
/// chord is exactly the radius.
pub proof fn lemma_down_z_half_chord(
    origin: Vec3<Scalar>,
    ahead: Scalar,
    radius: Scalar,
    mat: AnyMaterial,
)
    requires
        setting_in_range(origin, ahead, Scalar::spec_zero(), radius),
        0 < radius.raw,
    ensures
        sphere_from(origin, ahead, Scalar::spec_zero(), radius, mat).spec_half_chord(
            ray_down_z(origin),
        ) == radius,
        !sphere_from(origin, ahead, Scalar::spec_zero(), radius, mat).spec_misses(
            ray_down_z(origin),
        ),
        sphere_from(origin, ahead, Scalar::spec_zero(), radius, mat).spec_near(ray_down_z(origin)).raw
            == ahead.raw - radius.raw,
        sphere_from(origin, ahead, Scalar::spec_zero(), radius, mat).spec_far(ray_down_z(origin)).raw
            == ahead.raw + radius.raw,
{
    let zero = Scalar::spec_zero();
    let ray = ray_down_z(origin);
    let sphere = sphere_from(origin, ahead, zero, radius, mat);
    lemma_down_z_quantities(origin, ahead, zero, radius, mat);
    lemma_down_z_is_steady(origin);
    let r = radius.raw as int;
    let clearance = sphere.spec_clearance(ray);
    assert(clearance == r * r) by (nonlinear_arith)
        requires
            clearance == r * r - 0 * 0,
    ;
    assert(0 < clearance) by (nonlinear_arith)
        requires
            clearance == r * r,
            0 < r,
    ;
    assert(is_floor_sqrt(clearance * 0x1_0000_0000, r * 65536)) by (nonlinear_arith)
        requires
            clearance == r * r,
            0 < r,
    ;
    lemma_floor_sqrt_unique(clearance * 0x1_0000_0000, r * 65536);
    let a = ray.direction.spec_norm_sq();
    assert(a * 0x4_0000_0000 == 0x4_0000_0000_0000_0000_0000_0000int) by (nonlinear_arith)
        requires
            a == SCALE * SCALE,
            SCALE == 4294967296,
    ;
    assert(is_floor_sqrt(0x4_0000_0000_0000_0000_0000_0000int, 0x2_0000_0000_0000int))
        by (nonlinear_arith);
    lemma_floor_sqrt_unique(0x4_0000_0000_0000_0000_0000_0000int, 0x2_0000_0000_0000int);
    assert((r * 65536) * 0x2_0000_0000 == 0x2_0000_0000_0000int * r) by (nonlinear_arith);
    vstd::arithmetic::div_mod::lemma_div_by_multiple(r, 0x2_0000_0000_0000int);
    assert(0x2_0000_0000_0000int * r == r * 0x2_0000_0000_0000int) by (nonlinear_arith);
    assert(a != 0);
    assert(sphere.spec_half_chord(ray) == radius);
    assert(sphere.spec_steady_near(ray).raw == ahead.raw - r);
    assert(sphere.spec_steady_far(ray).raw == ahead.raw + r);
    assert((ahead.raw - r) * 1 == ahead.raw - r);
    assert((ahead.raw + r) * 1 == ahead.raw + r);
}

/// The record of a hit at `t` on the line through the centre: the point lies
/// `t` down the axis and on the sphere, the normal is the unit vector up the
/// axis, and the face is the front one where the hit lies before the centre.
proof fn lemma_hit_point_and_face(
    origin: Vec3<Scalar>,
    ahead: Scalar,
    radius: Scalar,
    mat: AnyMaterial,
    t: Scalar,
)
    requires
        setting_in_range(origin, ahead, Scalar::spec_zero(), radius),
        0 < radius.raw,
        t.raw == ahead.raw - radius.raw || t.raw == ahead.raw + radius.raw,
    ensures
        ({
            let record = sphere_from(origin, ahead, Scalar::spec_zero(), radius, mat).spec_record(
                ray_down_z(origin),
                t,
            );
            &&& record.t == t
            &&& record.point == (Vec3 { x: origin.x, y: origin.y, z: origin.z.spec_sub(t) })
            &&& record.front_face == (t.raw < ahead.raw)
            &&& record.normal == unit_z()
            &&& on_sphere(origin, ahead, radius, record.point)
        }),
{
    let zero = Scalar::spec_zero();
    let minus = Scalar::spec_from_int(-1);
    let ray = ray_down_z(origin);
    let sphere = sphere_from(origin, ahead, zero, radius, mat);
    lemma_down_z_is_steady(origin);
    lemma_mul_zero(t);
    lemma_mul_minus_one(t);
    let point = ray.spec_at(t);
    assert(point == (Vec3 { x: origin.x, y: origin.y, z: origin.z.spec_sub(t) }));
    let away = point.spec_sub(sphere.center);
    let gap = Scalar { raw: (ahead.raw - t.raw) as i64 };
    assert(away == (Vec3 { x: zero, y: zero, z: gap }));
    lemma_normalize_along_z(gap);
    let outward = sphere.spec_outward_normal(ray, t);
    assert(outward.x == zero);
    assert(outward.y == zero);
    lemma_mul_zero(zero);
    lemma_mul_minus_one(outward.z);
    assert(minus.spec_neg() == Scalar::spec_one());
}

/// A ray aimed at the centre of a sphere from outside hits it on its front
/// face exactly where the centre's distance less the radius puts it: the
/// point lies on the sphere and the normal is of unit length.
pub proof fn lemma_aimed_at_centre_hits_front(
    origin: Vec3<Scalar>,
    ahead: Scalar,
    radius: Scalar,
    mat: AnyMaterial,
)
    requires
        setting_in_range(origin, ahead, Scalar::spec_zero(), radius),
        0 < radius.raw,
        T_MIN_RAW < ahead.raw - radius.raw,
    ensures
        sphere_from(origin, ahead, Scalar::spec_zero(), radius, mat).spec_intersect(
            ray_down_z(origin),
            spec_trace_interval(),
        ) matches Some(record) && record.front_face && record.t.raw == ahead.raw - radius.raw
            && record.point == (Vec3 {
            x: origin.x,
            y: origin.y,
            z: origin.z.spec_sub(record.t),
        }) && on_sphere(origin, ahead, radius, record.point) && record.normal == unit_z(),
{
    let zero = Scalar::spec_zero();
    let ray = ray_down_z(origin);
    let sphere = sphere_from(origin, ahead, zero, radius, mat);
    lemma_down_z_half_chord(origin, ahead, radius, mat);
    let t = sphere.spec_near(ray);
    assert(sphere.spec_root(ray, spec_trace_interval()) == Some(t));
    lemma_hit_point_and_face(origin, ahead, radius, mat, t);
}

/// A ray that starts inside a sphere, on the line through its centre, leaves
/// it through its back face exactly where the centre's distance and the
/// radius together put it.
pub proof fn lemma_from_inside_hits_back(
    origin: Vec3<Scalar>,
    ahead: Scalar,
    radius: Scalar,
    mat: AnyMaterial,
)
    requires
        setting_in_range(origin, ahead, Scalar::spec_zero(), radius),
        -radius.raw < ahead.raw < radius.raw,
        T_MIN_RAW < ahead.raw + radius.raw,
    ensures
        sphere_from(origin, ahead, Scalar::spec_zero(), radius, mat).spec_intersect(
            ray_down_z(origin),
            spec_trace_interval(),
        ) matches Some(record) && !record.front_face && record.t.raw == ahead.raw + radius.raw
            && on_sphere(origin, ahead, radius, record.point) && record.normal == unit_z(),
{
    let zero = Scalar::spec_zero();
    let ray = ray_down_z(origin);
    let sphere = sphere_from(origin, ahead, zero, radius, mat);
    lemma_down_z_half_chord(origin, ahead, radius, mat);
    let t = sphere.spec_far(ray);
    assert(sphere.spec_near(ray).raw < 0);
    assert(sphere.spec_root(ray, spec_trace_interval()) == Some(t));
    lemma_hit_point_and_face(origin, ahead, radius, mat, t);
}

/// A ray that passes the centre of a sphere at more than the radius misses
/// the sphere, whatever the interval.
pub proof fn lemma_passing_beyond_radius_misses(
    origin: Vec3<Scalar>,
    ahead: Scalar,
    aside: Scalar,
    radius: Scalar,
    mat: AnyMaterial,
    interval: Interval,
)
    requires
        setting_in_range(origin, ahead, aside, radius),
        magnitude(aside.raw as int) > magnitude(radius.raw as int),
    ensures
        sphere_from(origin, ahead, aside, radius, mat).spec_intersect(
            ray_down_z(origin),
            interval,
        ) is None,
{
    lemma_down_z_quantities(origin, ahead, aside, radius, mat);
    lemma_down_z_is_steady(origin);
    let q = magnitude(aside.raw as int);
    let r = magnitude(radius.raw as int);
    assert(radius.raw * radius.raw - aside.raw * aside.raw < 0) by (nonlinear_arith)
        requires
            q > r,
            0 <= r,
            q == aside.raw || q == -aside.raw,
            r == radius.raw || r == -radius.raw,
    {
        assert(q * q >= (r + 1) * (r + 1));
    }
}

/// A ray that passes the centre of a sphere at no more than the radius does
/// not miss the sphere's line: within the range, a miss is reported exactly
/// where the line runs clear of the sphere.
pub proof fn lemma_passing_within_radius_meets(
    origin: Vec3<Scalar>,
    ahead: Scalar,
    aside: Scalar,
    radius: Scalar,
    mat: AnyMaterial,
)
    requires
        setting_in_range(origin, ahead, aside, radius),
        magnitude(aside.raw as int) <= magnitude(radius.raw as int),
    ensures
        !sphere_from(origin, ahead, aside, radius, mat).spec_misses(ray_down_z(origin)),
{
    lemma_down_z_quantities(origin, ahead, aside, radius, mat);
    lemma_down_z_is_steady(origin);
    let q = magnitude(aside.raw as int);
    let r = magnitude(radius.raw as int);
    assert(radius.raw * radius.raw - aside.raw * aside.raw >= 0) by (nonlinear_arith)
        requires
            0 <= q <= r,
            q == aside.raw || q == -aside.raw,
            r == radius.raw || r == -radius.raw,
    ;
}

} // verus!
