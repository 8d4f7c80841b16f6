//! How surfaces send light on: the scattering laws of the materials.

use vstd::prelude::*;
use crate::hittable::HitRecord;
use crate::ray::Ray;
use crate::rng::MAX_ATTEMPTS;
use crate::rng::Rng;
use crate::scalar::Scalar;
use crate::scalar::SCALE;
use crate::scalar_laws::lemma_mul_one;
use crate::scalar_laws::lemma_mul_zero;
use crate::vec3::Vec3;
use crate::vec3_laws::lemma_normalize_unit_or_zero;

verus! {

/// A surface's answer to an incoming ray. Each material states what it does
/// as a function of its own, `spec_outcome`, and answers for it here.
pub trait Material {
    /// The attenuation and the outgoing ray, or `None` where the light is
    /// absorbed, together with the generator as the draws leave it.
    spec fn spec_scatter(&self, ray_in: Ray, hit_record: HitRecord, rng: Rng) -> (
        Option<(Vec3<Scalar>, Ray)>,
        Rng,
    );

    fn scatter(&self, ray_in: &Ray, hit_record: &HitRecord, rng: &mut Rng) -> (r: Option<
        (Vec3<Scalar>, Ray),
    >)
        ensures
            (r, *final(rng)) == self.spec_scatter(*ray_in, *hit_record, *old(rng)),
    ;
}

/// The material of a record that no surface has filled in: it absorbs all light.
#[derive(Clone, Copy, Debug, PartialEq, Eq, Structural)]
pub struct DefaultMaterial {}

/// A matte surface.
#[derive(Clone, Copy, Debug, PartialEq, Eq, Structural)]
pub struct Lambertian {
    /// The fraction of light sent on, by channel.
    pub albedo: Vec3<Scalar>,
}

/// A mirror, more or less polished.
#[derive(Clone, Copy, Debug, PartialEq, Eq, Structural)]
pub struct Metal {
    pub albedo: Vec3<Scalar>,
    /// The radius of the blur of the reflection, from `0` to `1`.
    pub fuzz: Scalar,
}

/// A clear material such as glass or water.
#[derive(Clone, Copy, Debug, PartialEq, Eq, Structural)]
pub struct Dielectric {
    /// The refractive index against the medium around.
    pub refraction_index: Scalar,
}

/// Any one of the materials.
#[derive(Clone, Copy, Debug, PartialEq, Eq, Structural)]
pub enum AnyMaterial {
    Default(DefaultMaterial),
    Lambertian(Lambertian),
    Metal(Metal),
    Dielectric(Dielectric),
}

impl DefaultMaterial {
    /// All light is absorbed and nothing is drawn.
    pub open spec fn spec_outcome(&self, ray_in: Ray, hit_record: HitRecord, rng: Rng) -> (
        Option<(Vec3<Scalar>, Ray)>,
        Rng,
    ) {
        (None, rng)
    }
}

impl Material for DefaultMaterial {
    open spec fn spec_scatter(&self, ray_in: Ray, hit_record: HitRecord, rng: Rng) -> (
        Option<(Vec3<Scalar>, Ray)>,
        Rng,
    ) {
        self.spec_outcome(ray_in, hit_record, rng)
    }

    fn scatter(&self, ray_in: &Ray, hit_record: &HitRecord, rng: &mut Rng) -> (r: Option<
        (Vec3<Scalar>, Ray),
    >)
        ensures
            (r, *final(rng)) == self.spec_outcome(*ray_in, *hit_record, *old(rng)),
            r is None,
            *final(rng) == *old(rng),
    {
        None
    }
}

impl Lambertian {
    /// The normal plus a random unit vector, or the normal alone where the
    /// two cancel.
    pub open spec fn spec_direction(normal: Vec3<Scalar>, unit: Vec3<Scalar>) -> Vec3<Scalar> {
        if normal.spec_add(unit).spec_near_zero() {
            normal
        } else {
            normal.spec_add(unit)
        }
    }

    /// A matte surface always scatters, and attenuates by its albedo.
    pub open spec fn spec_outcome(&self, ray_in: Ray, hit_record: HitRecord, rng: Rng) -> (
        Option<(Vec3<Scalar>, Ray)>,
        Rng,
    ) {
        let (unit, next) = Vec3::<Scalar>::spec_random_unit_vector(rng, MAX_ATTEMPTS as nat);
        (
            Some(
                (
                    self.albedo,
                    Ray {
                        origin: hit_record.point,
                        direction: Self::spec_direction(hit_record.normal, unit),
                    },
                ),
            ),
            next,
        )
    }

    pub fn new(albedo: Vec3<Scalar>) -> (r: Self)
        ensures
            r.albedo == albedo,
    {
        Self { albedo }
    }
}

impl Material for Lambertian {
    open spec fn spec_scatter(&self, ray_in: Ray, hit_record: HitRecord, rng: Rng) -> (
        Option<(Vec3<Scalar>, Ray)>,
        Rng,
    ) {
        self.spec_outcome(ray_in, hit_record, rng)
    }

    fn scatter(&self, ray_in: &Ray, hit_record: &HitRecord, rng: &mut Rng) -> (r: Option<
        (Vec3<Scalar>, Ray),
    >)
        ensures
            (r, *final(rng)) == self.spec_outcome(*ray_in, *hit_record, *old(rng)),
            r matches Some((attenuation, scattered)) && attenuation == self.albedo
                && scattered.origin == hit_record.point,
    {
        let mut scatter_direction: Vec3<Scalar> = hit_record.normal + Vec3::random_unit_vector(
            rng,
        );
        if scatter_direction.near_zero() {
            scatter_direction = hit_record.normal;
        }
        Some((self.albedo, Ray::new(hit_record.point, scatter_direction)))
    }
}

impl Metal {
    /// The mirrored direction at unit length, blurred by `fuzz` times a
    /// random unit vector.
    pub open spec fn spec_direction(
        self,
        incoming: Vec3<Scalar>,
        normal: Vec3<Scalar>,
        unit: Vec3<Scalar>,
    ) -> Vec3<Scalar> {
        Vec3::<Scalar>::spec_reflect(incoming, normal).spec_normalize().spec_add(
            unit.spec_scale(self.fuzz),
        )
    }

    /// `fuzz`, brought into `[0, 1]`.
    pub open spec fn spec_clamp_fuzz(fuzz: Scalar) -> Scalar {
        if fuzz.raw < 0 {
            Scalar { raw: 0 }
        } else if fuzz.raw > SCALE {
            Scalar { raw: SCALE }
        } else {
            fuzz
        }
    }

    /// A mirror attenuates by its albedo, and absorbs what the blur sends into
    /// the surface.
    pub open spec fn spec_outcome(&self, ray_in: Ray, hit_record: HitRecord, rng: Rng) -> (
        Option<(Vec3<Scalar>, Ray)>,
        Rng,
    ) {
        let (unit, next) = Vec3::<Scalar>::spec_random_unit_vector(rng, MAX_ATTEMPTS as nat);
        let direction = self.spec_direction(ray_in.direction, hit_record.normal, unit);
        if hit_record.normal.spec_dot(direction).raw > 0 {
            (Some((self.albedo, Ray { origin: hit_record.point, direction })), next)
        } else {
            (None, next)
        }
    }

    pub fn new(albedo: Vec3<Scalar>, fuzz: Scalar) -> (r: Self)
        ensures
            r.albedo == albedo,
            r.fuzz == Self::spec_clamp_fuzz(fuzz),
    {
        let fuzz: Scalar = if fuzz.raw < 0 {
            Scalar::zero()
        } else if fuzz.raw > SCALE {
            Scalar::one()
        } else {
            fuzz
        };
        Self { albedo, fuzz }
    }
}

impl Material for Metal {
    open spec fn spec_scatter(&self, ray_in: Ray, hit_record: HitRecord, rng: Rng) -> (
        Option<(Vec3<Scalar>, Ray)>,
        Rng,
    ) {
        self.spec_outcome(ray_in, hit_record, rng)
    }

    fn scatter(&self, ray_in: &Ray, hit_record: &HitRecord, rng: &mut Rng) -> (r: Option<
        (Vec3<Scalar>, Ray),
    >)
        ensures
            (r, *final(rng)) == self.spec_outcome(*ray_in, *hit_record, *old(rng)),
            r matches Some((attenuation, scattered)) ==> attenuation == self.albedo
                && scattered.origin == hit_record.point && hit_record.normal.spec_dot(
                scattered.direction,
            ).raw > 0,
    {
        let reflected: Vec3<Scalar> = Vec3::reflect(ray_in.direction(), &hit_record.normal);
        let unit: Vec3<Scalar> = Vec3::random_unit_vector(rng);
        let reflected: Vec3<Scalar> = reflected.normalize() + self.fuzz * unit;
        let scattered: Ray = Ray::new(hit_record.point, reflected);
        if hit_record.normal.dot(scattered.direction()).raw > 0 {
            Some((self.albedo, scattered))
        } else {
            None
        }
    }
}

impl Dielectric {
    /// The ratio of the refractive indices in the order in which the ray
    /// passes them.
    pub open spec fn spec_ratio(self, front_face: bool) -> Scalar {
        if front_face {
            Scalar { raw: SCALE }.spec_div(self.refraction_index)
        } else {
            self.refraction_index
        }
    }

    /// The cosine of the angle between the reversed ray and the normal, but
    /// not above `1`.
    pub open spec fn spec_cos_theta(unit_direction: Vec3<Scalar>, normal: Vec3<Scalar>) -> Scalar {
        unit_direction.spec_neg().spec_dot(normal).spec_min(Scalar { raw: SCALE })
    }

    pub open spec fn spec_sin_theta(cos_theta: Scalar) -> Scalar {
        Scalar { raw: SCALE }.spec_sub(cos_theta.spec_mul(cos_theta)).spec_sqrt()
    }

    /// Total internal reflection: Snell's law has no solution.
    pub open spec fn spec_cannot_refract(ratio: Scalar, cos_theta: Scalar) -> bool {
        ratio.spec_mul(Self::spec_sin_theta(cos_theta)).raw > SCALE
    }

    /// Schlick's approximation of the share of light that a clear surface
    /// reflects: `r0 + (1 - r0) * (1 - cosine)^5`, with
    /// `r0 = ((1 - index) / (1 + index))^2`.
    pub open spec fn spec_reflectance(cosine: Scalar, refraction_index: Scalar) -> Scalar {
        let one = Scalar { raw: SCALE };
        let root = one.spec_sub(refraction_index).spec_div(one.spec_add(refraction_index));
        let r0 = root.spec_mul(root);
        let x = one.spec_sub(cosine);
        let x2 = x.spec_mul(x);
        let x5 = x2.spec_mul(x2).spec_mul(x);
        r0.spec_add(one.spec_sub(r0).spec_mul(x5))
    }

    /// A clear surface absorbs nothing: it reflects where it cannot refract
    /// or where the next draw falls under the reflectance, and else refracts.
    /// The direction that results is brought back to unit length, so that
    /// rounding does not add up from bounce to bounce.
    pub open spec fn spec_outcome(&self, ray_in: Ray, hit_record: HitRecord, rng: Rng) -> (
        Option<(Vec3<Scalar>, Ray)>,
        Rng,
    ) {
        let white = Vec3 {
            x: Scalar { raw: SCALE },
            y: Scalar { raw: SCALE },
            z: Scalar { raw: SCALE },
        };
        let ratio = self.spec_ratio(hit_record.front_face);
        let unit_direction = ray_in.direction.spec_normalize();
        let cos_theta = Self::spec_cos_theta(unit_direction, hit_record.normal);
        let reflected = Vec3::<Scalar>::spec_reflect(
            unit_direction,
            hit_record.normal,
        ).spec_normalize();
        let refracted = Vec3::<Scalar>::spec_refract(
            unit_direction,
            hit_record.normal,
            ratio,
        ).spec_normalize();
        if Self::spec_cannot_refract(ratio, cos_theta) {
            (Some((white, Ray { origin: hit_record.point, direction: reflected })), rng)
        } else if Self::spec_reflectance(cos_theta, ratio).raw > rng.spec_float().raw {
            (Some((white, Ray { origin: hit_record.point, direction: reflected })), rng.spec_next())
        } else {
            (Some((white, Ray { origin: hit_record.point, direction: refracted })), rng.spec_next())
        }
    }

    pub fn new(refract_index: Scalar) -> (r: Self)
        ensures
            r.refraction_index == refract_index,
    {
        Self { refraction_index: refract_index }
    }

    pub fn reflectance(cosine: Scalar, refraction_index: Scalar) -> (r: Scalar)
        ensures
            r == Self::spec_reflectance(cosine, refraction_index),
    {
        let one: Scalar = Scalar::one();
        let root: Scalar = (one - refraction_index) / (one + refraction_index);
        let r0: Scalar = root * root;
        let x: Scalar = one - cosine;
        let x2: Scalar = x * x;
        let x5: Scalar = x2 * x2 * x;
        r0 + (one - r0) * x5
    }
}

impl Material for Dielectric {
    open spec fn spec_scatter(&self, ray_in: Ray, hit_record: HitRecord, rng: Rng) -> (
        Option<(Vec3<Scalar>, Ray)>,
        Rng,
    ) {
        self.spec_outcome(ray_in, hit_record, rng)
    }

    fn scatter(&self, ray_in: &Ray, hit_record: &HitRecord, rng: &mut Rng) -> (r: Option<
        (Vec3<Scalar>, Ray),
    >)
        ensures
            (r, *final(rng)) == self.spec_outcome(*ray_in, *hit_record, *old(rng)),
            r matches Some((attenuation, scattered)) && attenuation.x == Scalar::spec_one()
                && attenuation.y == Scalar::spec_one() && attenuation.z == Scalar::spec_one()
                && scattered.origin == hit_record.point
                && scattered.direction.spec_unit_or_zero(),
    {
        proof {
            lemma_dielectric_always_scatters(*self, *ray_in, *hit_record, *rng);
        }
        let attenuation: Vec3<Scalar> = Vec3::new(Scalar::one(), Scalar::one(), Scalar::one());
        let ref_index: Scalar = if hit_record.front_face {
            Scalar::one() / self.refraction_index
        } else {
            self.refraction_index
        };
        let unit_direction: Vec3<Scalar> = ray_in.direction().normalize();
        let cos_theta: Scalar = Vec3::dot_explicit(
            &unit_direction.negate(),
            &hit_record.normal,
        ).min(Scalar::one());
        let sin_theta: Scalar = (Scalar::one() - cos_theta * cos_theta).sqrt();
        let cannot_refract: bool = (ref_index * sin_theta).raw > SCALE;
        let direction: Vec3<Scalar> = if cannot_refract || Self::reflectance(
            cos_theta,
            ref_index,
        ).raw > rng.random_float().raw {
            Vec3::reflect(&unit_direction, &hit_record.normal).normalize()
        } else {
            Vec3::refract(&unit_direction, &hit_record.normal, ref_index).normalize()
        };
        Some((attenuation, Ray::new(hit_record.point, direction)))
    }
}

/// A matte surface scatters every ray, and attenuates by exactly its albedo.
pub proof fn lemma_lambertian_always_scatters(
    material: Lambertian,
    ray_in: Ray,
    hit_record: HitRecord,
    rng: Rng,
)
    ensures
        material.spec_outcome(ray_in, hit_record, rng).0 matches Some((attenuation, scattered))
            && attenuation == material.albedo && scattered.origin == hit_record.point,
{
}

/// A metal without fuzz is a perfect mirror: whatever is drawn, the ray
/// leaves in the mirrored direction, at unit length.
pub proof fn lemma_polished_metal_mirrors(
    material: Metal,
    incoming: Vec3<Scalar>,
    normal: Vec3<Scalar>,
    unit: Vec3<Scalar>,
)
    requires
        material.fuzz.raw == 0,
    ensures
        material.spec_direction(incoming, normal, unit) == Vec3::<Scalar>::spec_reflect(
            incoming,
            normal,
        ).spec_normalize(),
        material.spec_direction(incoming, normal, unit).spec_unit_or_zero(),
{
    lemma_normalize_unit_or_zero(Vec3::<Scalar>::spec_reflect(incoming, normal));
    lemma_mul_zero(unit.x);
    lemma_mul_zero(unit.y);
    lemma_mul_zero(unit.z);
}

/// What a metal scatters leaves the surface on the side of the normal, and is
/// attenuated by exactly the albedo.
pub proof fn lemma_metal_scatters_outward(
    material: Metal,
    ray_in: Ray,
    hit_record: HitRecord,
    rng: Rng,
)
    ensures
        material.spec_outcome(ray_in, hit_record, rng).0 matches Some((attenuation, scattered))
            ==> attenuation == material.albedo && scattered.origin == hit_record.point
            && hit_record.normal.spec_dot(scattered.direction).raw > 0,
{
}

/// A clear surface scatters every ray and absorbs nothing of it, and the ray
/// leaves at unit length within four raw units, unless its direction has
/// come to nothing.
pub proof fn lemma_dielectric_always_scatters(
    material: Dielectric,
    ray_in: Ray,
    hit_record: HitRecord,
    rng: Rng,
)
    ensures
        material.spec_outcome(ray_in, hit_record, rng).0 matches Some((attenuation, scattered))
            && attenuation.x == Scalar::spec_one() && attenuation.y == Scalar::spec_one()
            && attenuation.z == Scalar::spec_one() && scattered.origin == hit_record.point
            && scattered.direction.spec_unit_or_zero(),
{
    let unit_direction = ray_in.direction.spec_normalize();
    let ratio = material.spec_ratio(hit_record.front_face);
    lemma_normalize_unit_or_zero(Vec3::<Scalar>::spec_reflect(unit_direction, hit_record.normal));
    lemma_normalize_unit_or_zero(
        Vec3::<Scalar>::spec_refract(unit_direction, hit_record.normal, ratio),
    );
}

/// A ray that meets a clear surface head-on, so that the cosine is `1`, is
/// never reflected for want of a refracted direction, whatever the ratio
/// of the indices.
pub proof fn lemma_head_on_can_refract(ratio: Scalar)
    ensures
        !Dielectric::spec_cannot_refract(ratio, Scalar::spec_one()),
        Dielectric::spec_sin_theta(Scalar::spec_one()).raw == 0,
{
    let one = Scalar { raw: SCALE };
    lemma_mul_one(one);
    lemma_mul_zero(ratio);
}

impl AnyMaterial {
    /// What the material in hand does.
    pub open spec fn spec_outcome(&self, ray_in: Ray, hit_record: HitRecord, rng: Rng) -> (
        Option<(Vec3<Scalar>, Ray)>,
        Rng,
    ) {
        match *self {
            AnyMaterial::Default(m) => m.spec_outcome(ray_in, hit_record, rng),
            AnyMaterial::Lambertian(m) => m.spec_outcome(ray_in, hit_record, rng),
            AnyMaterial::Metal(m) => m.spec_outcome(ray_in, hit_record, rng),
            AnyMaterial::Dielectric(m) => m.spec_outcome(ray_in, hit_record, rng),
        }
    }
}

impl Material for AnyMaterial {
    open spec fn spec_scatter(&self, ray_in: Ray, hit_record: HitRecord, rng: Rng) -> (
        Option<(Vec3<Scalar>, Ray)>,
        Rng,
    ) {
        self.spec_outcome(ray_in, hit_record, rng)
    }

    fn scatter(&self, ray_in: &Ray, hit_record: &HitRecord, rng: &mut Rng) -> (r: Option<
        (Vec3<Scalar>, Ray),
    >)
        ensures
            (r, *final(rng)) == self.spec_outcome(*ray_in, *hit_record, *old(rng)),
    {
        match self {
            AnyMaterial::Default(m) => m.scatter(ray_in, hit_record, rng),
            AnyMaterial::Lambertian(m) => m.scatter(ray_in, hit_record, rng),
            AnyMaterial::Metal(m) => m.scatter(ray_in, hit_record, rng),
            AnyMaterial::Dielectric(m) => m.scatter(ray_in, hit_record, rng),
        }
    }
}

} // verus!
