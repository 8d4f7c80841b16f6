use tracer::hittable::HitRecord;
use tracer::material::AnyMaterial;
use tracer::material::DefaultMaterial;
use tracer::material::Dielectric;
use tracer::material::Lambertian;
use tracer::material::Material;
use tracer::material::Metal;
use tracer::ray::Ray;
use tracer::rng::Rng;
use tracer::scalar::Scalar;
use tracer::vec3::Vec3;

fn whole(x: i32, y: i32, z: i32) -> Vec3<Scalar> {
    Vec3::new(Scalar::from_int(x), Scalar::from_int(y), Scalar::from_int(z))
}

fn raw(x: i64, y: i64, z: i64) -> Vec3<Scalar> {
    Vec3::new(Scalar::from_raw(x), Scalar::from_raw(y), Scalar::from_raw(z))
}

fn floor_hit(front_face: bool) -> HitRecord {
    let mut record = HitRecord::default();
    record.t = Scalar::from_int(1);
    record.point = whole(1, 2, 3);
    record.normal = whole(0, 1, 0);
    record.front_face = front_face;
    record
}

fn gold() -> Vec3<Scalar> {
    Vec3::new(Scalar::from_ratio(4, 5), Scalar::from_ratio(3, 5), Scalar::from_ratio(1, 5))
}

#[test]
fn unset_material_absorbs() {
    let mut rng = Rng::new(9);
    let ray = Ray::new(whole(0, 0, 0), whole(0, -1, 0));
    assert_eq!(DefaultMaterial {}.scatter(&ray, &floor_hit(true), &mut rng), None);
    assert_eq!(AnyMaterial::Default(DefaultMaterial {}).scatter(&ray, &floor_hit(true), &mut rng), None);
    assert_eq!(rng.state, 9);
}

#[test]
fn matte_surface_scatters_with_its_albedo() {
    let albedo = Vec3::new(Scalar::from_ratio(1, 10), Scalar::from_ratio(1, 5), Scalar::from_ratio(3, 10));
    let material = Lambertian::new(albedo);
    assert_eq!(material.albedo, albedo);
    let ray = Ray::new(whole(0, 0, 0), whole(0, -1, 0));
    let mut rng = Rng::new(9);
    let (attenuation, scattered) = material.scatter(&ray, &floor_hit(true), &mut rng).unwrap();
    assert_eq!(attenuation, albedo);
    assert_eq!(attenuation, raw(429496729, 858993459, 1288490188));
    assert_eq!(*scattered.origin(), whole(1, 2, 3));
    assert_eq!(*scattered.direction(), raw(-1844590339, 7308795246, 2441530594));
    assert_eq!(rng.state, 12823928297016389900);
}

#[test]
fn matte_surface_scatters_whatever_is_drawn() {
    let material = AnyMaterial::Lambertian(Lambertian::new(gold()));
    let ray = Ray::new(whole(0, 0, 0), whole(3, -1, 2));
    let mut seed = 0;
    while seed < 300 {
        let mut rng = Rng::new(seed);
        let (attenuation, scattered) = material.scatter(&ray, &floor_hit(true), &mut rng).unwrap();
        assert_eq!(attenuation, gold());
        assert!(!scattered.direction().near_zero());
        seed += 1;
    }
}

#[test]
fn fuzz_is_kept_between_zero_and_one() {
    assert_eq!(Metal::new(gold(), Scalar::from_ratio(3, 10)).fuzz, Scalar::from_ratio(3, 10));
    assert_eq!(Metal::new(gold(), Scalar::from_int(2)).fuzz, Scalar::one());
    assert_eq!(Metal::new(gold(), Scalar::from_int(-2)).fuzz, Scalar::zero());
    assert_eq!(Metal::new(gold(), Scalar::one()).fuzz, Scalar::one());
    assert_eq!(Metal::new(gold(), Scalar::zero()).albedo, gold());
}

#[test]
fn polished_metal_is_a_mirror() {
    let material = Metal::new(gold(), Scalar::zero());
    let incoming = whole(1, -1, 0);
    let ray = Ray::new(whole(0, 0, 0), incoming);
    let record = floor_hit(true);
    let mut seed = 0;
    while seed < 50 {
        let mut rng = Rng::new(seed);
        let (attenuation, scattered) = material.scatter(&ray, &record, &mut rng).unwrap();
        assert_eq!(attenuation, gold());
        assert_eq!(*scattered.origin(), whole(1, 2, 3));
        assert_eq!(*scattered.direction(), raw(3037000500, 3037000500, 0));
        assert_eq!(*scattered.direction(), Vec3::reflect(&incoming, &record.normal).normalize());
        let out = scattered.direction().dot(&record.normal);
        let back = (-incoming.normalize()).dot(&record.normal);
        assert!((out.raw - back.raw).abs() <= 4);
        seed += 1;
    }
}

#[test]
fn rough_metal_blurs_its_reflection() {
    let material = Metal::new(gold(), Scalar::one());
    let ray = Ray::new(whole(0, 0, 0), whole(1, -1, 0));
    let mut rng = Rng::new(9);
    let (attenuation, scattered) = material.scatter(&ray, &floor_hit(true), &mut rng).unwrap();
    assert_eq!(attenuation, raw(3435973836, 2576980377, 858993459));
    assert_eq!(*scattered.direction(), raw(1192410161, 6050828450, 2441530594));
    assert_eq!(rng.state, 12823928297016389900);
}

#[test]
fn metal_absorbs_what_is_blurred_into_the_surface() {
    let material = Metal::new(gold(), Scalar::one());
    let ray = Ray::new(whole(0, 0, 0), whole(10, -1, 0));
    let mut rng = Rng::new(2);
    assert_eq!(material.scatter(&ray, &floor_hit(true), &mut rng), None);
    let mut rng = Rng::new(2);
    assert_eq!(AnyMaterial::Metal(material).scatter(&ray, &floor_hit(true), &mut rng), None);
}

#[test]
fn glass_absorbs_nothing() {
    let material = Dielectric::new(Scalar::from_ratio(3, 2));
    assert_eq!(material.refraction_index, Scalar::from_ratio(3, 2));
    let ray = Ray::new(whole(0, 0, 0), whole(2, -1, 1));
    let mut seed = 0;
    while seed < 100 {
        let mut rng = Rng::new(seed);
        let (attenuation, scattered) = material.scatter(&ray, &floor_hit(seed % 2 == 0), &mut rng).unwrap();
        assert_eq!(attenuation, whole(1, 1, 1));
        assert_eq!(*scattered.origin(), whole(1, 2, 3));
        seed += 1;
    }
}

#[test]
fn head_on_ray_passes_straight_through_glass_or_comes_straight_back() {
    let material = Dielectric::new(Scalar::from_ratio(3, 2));
    let ray = Ray::new(whole(0, 0, 0), whole(0, -1, 0));
    let mut rng = Rng::new(9);
    let (_, scattered) = material.scatter(&ray, &floor_hit(true), &mut rng).unwrap();
    assert_eq!(*scattered.direction(), whole(0, -1, 0));
    assert_eq!(rng.state, 3379688834381445604);
    let mut rng = Rng::new(23);
    let (_, scattered) = material.scatter(&ray, &floor_hit(true), &mut rng).unwrap();
    assert_eq!(*scattered.direction(), whole(0, 1, 0));
    let mut passed = 0;
    let mut seed = 0;
    while seed < 200 {
        let mut rng = Rng::new(seed);
        let before = rng.clone();
        let (_, scattered) = material.scatter(&ray, &floor_hit(false), &mut rng).unwrap();
        assert_ne!(rng, before);
        if *scattered.direction() == whole(0, -1, 0) {
            passed += 1;
        } else {
            assert_eq!(*scattered.direction(), whole(0, 1, 0));
        }
        seed += 1;
    }
    assert!(passed > 150);
}

#[test]
fn shallow_ray_inside_glass_is_reflected_without_a_draw() {
    let material = Dielectric::new(Scalar::from_ratio(3, 2));
    let mut record = floor_hit(false);
    record.point = whole(0, 0, 0);
    let ray = Ray::new(whole(0, 0, 0), Vec3::new(Scalar::one(), Scalar::from_ratio(-1, 10), Scalar::zero()));
    let mut rng = Rng::new(3);
    let (attenuation, scattered) = material.scatter(&ray, &record, &mut rng).unwrap();
    assert_eq!(attenuation, whole(1, 1, 1));
    assert_eq!(*scattered.direction(), raw(4273652190, 427365218, 0));
    assert_eq!(rng.state, 3);
}

#[test]
fn glass_sends_a_slow_ray_on_at_unit_length() {
    let material = Dielectric::new(Scalar::from_ratio(3, 2));
    let mut record = floor_hit(false);
    record.point = whole(0, 0, 0);
    let ray = Ray::new(whole(0, 0, 0), raw(65536, -65536, 0));
    let mut seed = 1;
    while seed < 40 {
        let mut rng = Rng::new(seed);
        let (_, scattered) = material.scatter(&ray, &record, &mut rng).unwrap();
        assert_eq!(*scattered.direction(), raw(3037000500, 3037000500, 0));
        assert!((scattered.direction().mag().raw - 4294967296).abs() <= 4);
        seed += 1;
    }
}

#[test]
fn glass_sends_every_ray_on_at_unit_length() {
    let material = Dielectric::new(Scalar::from_ratio(3, 2));
    let mut rng = Rng::new(31);
    let mut k = 0;
    while k < 300 {
        let normal = Vec3::random_unit_vector(&mut rng);
        let incoming = Vec3::random_range_vec3(&mut rng, Scalar::from_int(-2), Scalar::from_int(2));
        let mut record = floor_hit(k % 2 == 0);
        record.normal = normal;
        let ray = Ray::new(whole(0, 0, 0), incoming);
        let (_, scattered) = material.scatter(&ray, &record, &mut rng).unwrap();
        assert!((scattered.direction().mag().raw - 4294967296).abs() <= 4);
        k += 1;
    }
}

#[test]
fn polished_metal_sends_a_slow_ray_on_at_unit_length() {
    let material = Metal::new(gold(), Scalar::zero());
    let ray = Ray::new(whole(0, 0, 0), raw(65536, -65536, 0));
    let mut rng = Rng::new(9);
    let (_, scattered) = material.scatter(&ray, &floor_hit(true), &mut rng).unwrap();
    assert_eq!(*scattered.direction(), raw(3037000501, 3037000501, 0));
    assert!((scattered.direction().mag().raw - 4294967296).abs() <= 4);
}

#[test]
fn reflectance_grows_toward_grazing_angles() {
    let glass = Scalar::from_ratio(3, 2);
    assert_eq!(Dielectric::reflectance(Scalar::one(), glass).raw, 171798691);
    assert_eq!(Dielectric::reflectance(Scalar::zero(), glass).raw, 4294967296);
    assert_eq!(Dielectric::reflectance(Scalar::from_ratio(1, 2), Scalar::from_ratio(2, 3)).raw, 300647709);
}

#[test]
fn any_material_does_what_its_variant_does() {
    let ray = Ray::new(whole(0, 0, 0), whole(1, -1, 0));
    let record = floor_hit(true);
    let matte = Lambertian::new(gold());
    let metal = Metal::new(gold(), Scalar::from_ratio(1, 2));
    let glass = Dielectric::new(Scalar::from_ratio(3, 2));
    let mut seed = 0;
    while seed < 50 {
        let mut a = Rng::new(seed);
        let mut b = Rng::new(seed);
        assert_eq!(AnyMaterial::Lambertian(matte).scatter(&ray, &record, &mut a), matte.scatter(&ray, &record, &mut b));
        assert_eq!(a, b);
        assert_eq!(AnyMaterial::Metal(metal).scatter(&ray, &record, &mut a), metal.scatter(&ray, &record, &mut b));
        assert_eq!(a, b);
        assert_eq!(AnyMaterial::Dielectric(glass).scatter(&ray, &record, &mut a), glass.scatter(&ray, &record, &mut b));
        assert_eq!(a, b);
        seed += 1;
    }
}
