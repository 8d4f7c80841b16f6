//! Rays: a starting point and a direction of travel.

use vstd::prelude::*;
use crate::scalar::Scalar;
use crate::scalar_laws::lemma_mul_distributes_within_one;
use crate::scalar_laws::lemma_mul_in_range;
use crate::scalar_laws::lemma_mul_zero;
use crate::vec3::Vec3;

verus! {

/// The points `origin + direction * t`. The direction need not be of unit
/// length.
#[derive(Clone, Copy, Debug, PartialEq, Eq, Structural)]
pub struct Ray {
    pub origin: Vec3<Scalar>,
    pub direction: Vec3<Scalar>,
}

impl Ray {
    pub open spec fn spec_at(self, t: Scalar) -> Vec3<Scalar> {
        self.origin.spec_add(self.direction.spec_scale(t))
    }

    pub fn new(origin: Vec3<Scalar>, direction: Vec3<Scalar>) -> (r: Self)
        ensures
            r.origin == origin,
            r.direction == direction,
    {
        Ray { origin, direction }
    }

    pub fn origin(&self) -> (r: &Vec3<Scalar>)
        ensures
            *r == self.origin,
    {
        &self.origin
    }

    pub fn direction(&self) -> (r: &Vec3<Scalar>)
        ensures
            *r == self.direction,
    {
        &self.direction
    }

    pub fn at(&self, t: Scalar) -> (r: Vec3<Scalar>)
        ensures
            r == self.spec_at(t),
    {
        self.origin + self.direction * t
    }
}

/// By how many raw units a coordinate of a point that was reached in one step
/// differs from the same coordinate reached in two steps from `origin`.
pub open spec fn coordinate_gap(joined: Scalar, first: Scalar, second: Scalar, origin: Scalar) -> int {
    joined.raw - (first.raw + (second.raw - origin.raw))
}

/// A ray starts at its origin.
pub proof fn lemma_at_zero(ray: Ray)
    ensures
        ray.spec_at(Scalar::spec_zero()) == ray.origin,
{
    lemma_mul_zero(ray.direction.x);
    lemma_mul_zero(ray.direction.y);
    lemma_mul_zero(ray.direction.z);
}

/// A ray is affine in its parameter up to rounding: for a ray and parameters
/// of moderate size, each coordinate of `at(s + t)` is within one raw unit of
/// that of `at(s) + (at(t) - origin)`.
pub proof fn lemma_at_affine(ray: Ray, s: Scalar, t: Scalar)
    requires
        s.spec_moderate(),
        t.spec_moderate(),
        ray.origin.x.spec_moderate() && ray.origin.y.spec_moderate() && ray.origin.z.spec_moderate(),
        ray.direction.x.spec_moderate() && ray.direction.y.spec_moderate()
            && ray.direction.z.spec_moderate(),
    ensures
        -1 <= coordinate_gap(
            ray.spec_at(s.spec_add(t)).x,
            ray.spec_at(s).x,
            ray.spec_at(t).x,
            ray.origin.x,
        ) <= 1,
        -1 <= coordinate_gap(
            ray.spec_at(s.spec_add(t)).y,
            ray.spec_at(s).y,
            ray.spec_at(t).y,
            ray.origin.y,
        ) <= 1,
        -1 <= coordinate_gap(
            ray.spec_at(s.spec_add(t)).z,
            ray.spec_at(s).z,
            ray.spec_at(t).z,
            ray.origin.z,
        ) <= 1,
{
    lemma_coordinate_affine(ray.origin.x, ray.direction.x, s, t);
    lemma_coordinate_affine(ray.origin.y, ray.direction.y, s, t);
    lemma_coordinate_affine(ray.origin.z, ray.direction.z, s, t);
}

/// The step between two points of a ray is the direction times the
/// difference of their parameters, within one raw unit in each coordinate,
/// for a ray and parameters of moderate size.
pub proof fn lemma_at_difference(ray: Ray, a: Scalar, b: Scalar)
    requires
        a.spec_moderate(),
        b.spec_moderate(),
        ray.origin.x.spec_moderate() && ray.origin.y.spec_moderate() && ray.origin.z.spec_moderate(),
        ray.direction.x.spec_moderate() && ray.direction.y.spec_moderate()
            && ray.direction.z.spec_moderate(),
    ensures
        -1 <= ray.spec_at(a).spec_sub(ray.spec_at(b)).x.raw - ray.direction.spec_scale(
            a.spec_sub(b),
        ).x.raw <= 1,
        -1 <= ray.spec_at(a).spec_sub(ray.spec_at(b)).y.raw - ray.direction.spec_scale(
            a.spec_sub(b),
        ).y.raw <= 1,
        -1 <= ray.spec_at(a).spec_sub(ray.spec_at(b)).z.raw - ray.direction.spec_scale(
            a.spec_sub(b),
        ).z.raw <= 1,
{
    lemma_coordinate_difference(ray.origin.x, ray.direction.x, a, b);
    lemma_coordinate_difference(ray.origin.y, ray.direction.y, a, b);
    lemma_coordinate_difference(ray.origin.z, ray.direction.z, a, b);
}

/// One coordinate of `lemma_at_difference`.
proof fn lemma_coordinate_difference(origin: Scalar, direction: Scalar, a: Scalar, b: Scalar)
    requires
        a.spec_moderate(),
        b.spec_moderate(),
        origin.spec_moderate(),
        direction.spec_moderate(),
    ensures
        -1 <= origin.spec_add(direction.spec_mul(a)).spec_sub(
            origin.spec_add(direction.spec_mul(b)),
        ).raw - direction.spec_mul(a.spec_sub(b)).raw <= 1,
{
    let step = a.spec_sub(b);
    lemma_mul_in_range(direction, a);
    lemma_mul_in_range(direction, b);
    lemma_mul_in_range(direction, step);
    assert(step.spec_add(b) == a);
    lemma_mul_distributes_within_one(direction, step, b);
}

/// One coordinate of `lemma_at_affine`.
proof fn lemma_coordinate_affine(origin: Scalar, direction: Scalar, s: Scalar, t: Scalar)
    requires
        s.spec_moderate(),
        t.spec_moderate(),
        origin.spec_moderate(),
        direction.spec_moderate(),
    ensures
        -1 <= coordinate_gap(
            origin.spec_add(direction.spec_mul(s.spec_add(t))),
            origin.spec_add(direction.spec_mul(s)),
            origin.spec_add(direction.spec_mul(t)),
            origin,
        ) <= 1,
{
    lemma_mul_in_range(direction, s);
    lemma_mul_in_range(direction, t);
    lemma_mul_in_range(direction, s.spec_add(t));
    lemma_mul_distributes_within_one(direction, s, t);
}

} // verus!
