//! What a ray can hit, and the record of a hit.

use vstd::prelude::*;
use crate::interval::Interval;
use crate::material::AnyMaterial;
use crate::material::DefaultMaterial;
use crate::ray::Ray;
use crate::scalar::Scalar;
use crate::scalar_laws::lemma_mul_moderate;
use crate::vec3::Vec3;

verus! {

/// Where and how a ray met a surface.
#[derive(Clone, Copy, Debug, PartialEq, Eq, Structural)]
pub struct HitRecord {
    /// The ray parameter of the hit.
    pub t: Scalar,
    pub point: Vec3<Scalar>,
    /// The material of the surface that was hit.
    pub mat: AnyMaterial,
    /// The surface normal, turned against the incoming ray.
    pub normal: Vec3<Scalar>,
    /// Whether the ray came from outside the surface.
    pub front_face: bool,
}

impl HitRecord {
    /// A ray meets the front of a surface when it runs against the outward
    /// normal.
    pub open spec fn spec_front_face(ray: Ray, outward_normal: Vec3<Scalar>) -> bool {
        ray.direction.spec_dot(outward_normal).raw < 0
    }

    /// The outward normal, turned against the ray.
    pub open spec fn spec_face_normal(ray: Ray, outward_normal: Vec3<Scalar>) -> Vec3<Scalar> {
        if Self::spec_front_face(ray, outward_normal) {
            outward_normal
        } else {
            outward_normal.spec_neg()
        }
    }

    pub open spec fn spec_default() -> Self {
        HitRecord {
            t: Scalar { raw: 0 },
            point: Vec3::<Scalar>::spec_zero(),
            mat: AnyMaterial::Default(DefaultMaterial {  }),
            normal: Vec3::<Scalar>::spec_zero(),
            front_face: true,
        }
    }

    pub fn set_face_normal(&mut self, ray: &Ray, outward_normal: &Vec3<Scalar>)
        ensures
            final(self).front_face == Self::spec_front_face(*ray, *outward_normal),
            final(self).normal == Self::spec_face_normal(*ray, *outward_normal),
            final(self).t == old(self).t,
            final(self).point == old(self).point,
            final(self).mat == old(self).mat,
    {
        self.front_face = ray.direction().dot(outward_normal).raw < 0;
        self.normal = if self.front_face {
            *outward_normal
        } else {
            outward_normal.negate()
        };
    }

    pub fn default() -> (r: Self)
        ensures
            r == Self::spec_default(),
    {
        let def_vec: Vec3<Scalar> = Vec3::origin();
        Self {
            t: Scalar::zero(),
            point: def_vec,
            mat: AnyMaterial::Default(DefaultMaterial {  }),
            normal: def_vec,
            front_face: true,
        }
    }
}

/// The normal of a record is turned against the ray: for a direction and an
/// outward normal of moderate size, their dot product is not positive.
pub proof fn lemma_face_normal_opposes_ray(ray: Ray, outward_normal: Vec3<Scalar>)
    requires
        ray.direction.x.spec_moderate() && ray.direction.y.spec_moderate()
            && ray.direction.z.spec_moderate(),
        outward_normal.x.spec_moderate() && outward_normal.y.spec_moderate()
            && outward_normal.z.spec_moderate(),
    ensures
        ray.direction.spec_dot(HitRecord::spec_face_normal(ray, outward_normal)).raw <= 0,
{
    lemma_mul_moderate(ray.direction.x, outward_normal.x);
    lemma_mul_moderate(ray.direction.y, outward_normal.y);
    lemma_mul_moderate(ray.direction.z, outward_normal.z);
}

/// A hit, kept only where it lies before `upper`.
pub open spec fn hit_before(hit: Option<HitRecord>, upper: Scalar) -> Option<HitRecord> {
    match hit {
        Some(record) => if record.t.raw < upper.raw {
            hit
        } else {
            None
        },
        None => None,
    }
}

/// A thing that rays can hit.
pub trait Hittable {
    /// The nearest hit of `ray` whose parameter lies strictly inside
    /// `interval`, if there is one.
    spec fn spec_hit(&self, ray: Ray, interval: Interval) -> Option<HitRecord>;

    /// A reported hit lies strictly inside the interval that was asked for.
    proof fn lemma_hit_surrounded(&self, ray: Ray, interval: Interval)
        ensures
            self.spec_hit(ray, interval) matches Some(record) ==> interval.spec_surrounds(
                record.t,
            ),
    ;

    /// Lowering the upper bound of the interval takes away the hits at or
    /// beyond the new bound and changes no other.
    proof fn lemma_hit_narrowed(&self, ray: Ray, interval: Interval, upper: Scalar)
        requires
            upper.raw <= interval.max.raw,
        ensures
            self.spec_hit(ray, Interval { min: interval.min, max: upper }) == hit_before(
                self.spec_hit(ray, interval),
                upper,
            ),
    ;

    fn hit(&self, ray: &Ray, interval: &Interval) -> (r: Option<HitRecord>)
        ensures
            r == self.spec_hit(*ray, *interval),
    ;
}

} // verus!
