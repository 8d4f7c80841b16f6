//! A small Monte Carlo path tracer over Q31.32 fixed-point arithmetic.
//!
//! Scalars are fixed-point numbers whose operations are total and saturate;
//! vectors, rays, spheres, materials and the camera are built on them. The
//! random source is a generator that the caller seeds and hands to whatever
//! draws from it, so that a scene, a camera and a seed determine an image.

use vstd::prelude::*;

pub mod arith;
pub mod camera;
pub mod color;
pub mod hittable;
pub mod hittable_list;
pub mod interval;
pub mod material;
pub mod ray;
pub mod rng;
pub mod scalar;
pub mod scalar_laws;
pub mod sphere;
pub mod sphere_accuracy;
pub mod sphere_laws;
pub mod vec3;
pub mod vec3_laws;

pub use camera::Camera;
pub use color::write_color;
pub use hittable::HitRecord;
pub use hittable::Hittable;
pub use hittable_list::HittableList;
pub use interval::Interval;
pub use interval::IntervalWorldChoice;
pub use material::AnyMaterial;
pub use material::DefaultMaterial;
pub use material::Dielectric;
pub use material::Lambertian;
pub use material::Material;
pub use material::Metal;
pub use ray::Ray;
pub use rng::Rng;
pub use scalar::Scalar;
pub use sphere::Sphere;
pub use vec3::Vec3;

verus! {

/// `degrees * PI / 180`.
pub open spec fn spec_degrees_to_radians(degrees: Scalar) -> Scalar {
    degrees.spec_mul(Scalar { raw: scalar::PI_RAW }).spec_div(Scalar::spec_from_int(180))
}

/// An angle in radians, from the same angle in degrees.
pub fn degrees_to_radians(degrees: Scalar) -> (r: Scalar)
    ensures
        r == spec_degrees_to_radians(degrees),
{
    degrees * Scalar::pi() / Scalar::from_int(180)
}

/// The colour that shows a surface normal: half of the normal plus `(1, 1, 1)`.
pub open spec fn spec_normal_color(normal: Vec3<Scalar>) -> Vec3<Scalar> {
    normal.spec_add(
        Vec3 { x: Scalar::spec_one(), y: Scalar::spec_one(), z: Scalar::spec_one() },
    ).spec_scale(Scalar { raw: camera::HALF_RAW })
}

/// The colour of the nearest surface's normal, or the sky where the ray hits
/// nothing.
pub open spec fn spec_ray_color<H: Hittable>(ray: Ray, world: &H) -> Vec3<Scalar> {
    match world.spec_hit(ray, Interval { min: Scalar::spec_zero(), max: Scalar { raw: scalar::MAX_RAW } }) {
        Some(record) => spec_normal_color(record.normal),
        None => camera::spec_sky(ray),
    }
}

/// Colours a ray by the normal of what it hits first, without any bounce.
pub fn ray_color<H: Hittable>(ray: &Ray, world: &H) -> (r: Vec3<Scalar>)
    ensures
        r == spec_ray_color(*ray, world),
{
    match world.hit(ray, &Interval::new(Scalar::zero(), Scalar::infinity())) {
        Some(hit_record) => {
            Scalar::from_raw(camera::HALF_RAW) * (hit_record.normal + Vec3::new(
                Scalar::one(),
                Scalar::one(),
                Scalar::one(),
            ))
        },
        None => Camera::sky(ray),
    }
}

/// Along the unit direction of `ray`, where its line enters the sphere, and
/// `-1` where the line misses it.
pub open spec fn spec_hit_sphere(center: Vec3<Scalar>, radius: Scalar, ray: Ray) -> Scalar {
    let sphere = Sphere { center, radius, mat: AnyMaterial::Default(DefaultMaterial {  }) };
    let unit = Ray { origin: ray.origin, direction: ray.direction.spec_normalize() };
    if sphere.spec_misses(unit) {
        Scalar::spec_from_int(-1)
    } else {
        sphere.spec_near(unit)
    }
}

/// Where the line of `ray` enters the sphere, measured along the ray's unit
/// direction; `-1` where it misses.
pub fn hit_sphere(center: &Vec3<Scalar>, radius: Scalar, ray: &Ray) -> (r: Scalar)
    ensures
        r == spec_hit_sphere(*center, radius, *ray),
{
    let sphere: Sphere = Sphere::new(*center, radius, AnyMaterial::Default(DefaultMaterial {  }));
    let unit: Ray = Ray::new(*ray.origin(), ray.direction().normalize());
    match sphere.roots(&unit) {
        Some((near, _far)) => near,
        None => Scalar::from_int(-1),
    }
}

} // verus!
