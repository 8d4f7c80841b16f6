use tracer::hittable::HitRecord;
use tracer::hittable::Hittable;
use tracer::hittable_list::HittableList;
use tracer::interval::Interval;
use tracer::material::AnyMaterial;
use tracer::material::DefaultMaterial;
use tracer::material::Lambertian;
use tracer::ray::Ray;
use tracer::scalar::Scalar;
use tracer::sphere::Sphere;
use tracer::vec3::Vec3;

fn whole(x: i32, y: i32, z: i32) -> Vec3<Scalar> {
    Vec3::new(Scalar::from_int(x), Scalar::from_int(y), Scalar::from_int(z))
}

fn raw(x: i64, y: i64, z: i64) -> Vec3<Scalar> {
    Vec3::new(Scalar::from_raw(x), Scalar::from_raw(y), Scalar::from_raw(z))
}

fn matte(r: i32, g: i32, b: i32) -> AnyMaterial {
    AnyMaterial::Lambertian(Lambertian::new(whole(r, g, b)))
}

fn forward() -> Interval {
    Interval::new(Scalar::from_raw(429496), Scalar::infinity())
}

fn ball() -> Sphere {
    Sphere::new(whole(0, 0, -5), Scalar::from_int(1), matte(1, 0, 0))
}

#[test]
fn sphere_keeps_its_parts() {
    let sphere = ball();
    assert_eq!(sphere.center, whole(0, 0, -5));
    assert_eq!(sphere.radius, Scalar::from_int(1));
    assert_eq!(sphere.mat, matte(1, 0, 0));
}

#[test]
fn ray_aimed_at_the_centre_hits_at_distance_less_radius() {
    let ray = Ray::new(whole(0, 0, 0), whole(0, 0, -1));
    let hit = ball().hit(&ray, &forward()).unwrap();
    assert_eq!(hit.t, Scalar::from_int(4));
    assert_eq!(hit.point, whole(0, 0, -4));
    assert_eq!(hit.normal, whole(0, 0, 1));
    assert!(hit.front_face);
    assert_eq!(hit.mat, matte(1, 0, 0));
}

#[test]
fn direction_of_double_length_halves_the_parameter() {
    let ray = Ray::new(whole(0, 0, 0), whole(0, 0, -2));
    let hit = ball().hit(&ray, &forward()).unwrap();
    assert_eq!(hit.t, Scalar::from_int(2));
    assert_eq!(hit.point, whole(0, 0, -4));
    assert_eq!(hit.normal, whole(0, 0, 1));
}

#[test]
fn slanted_ray_aimed_at_the_centre_hits_at_distance_less_radius() {
    let sphere = Sphere::new(whole(0, 0, 0), Scalar::from_int(2), matte(1, 1, 1));
    let direction = whole(-3, -4, 0).normalize();
    let ray = Ray::new(whole(3, 4, 0), direction);
    let hit = sphere.hit(&ray, &forward()).unwrap();
    assert_eq!(hit.t.raw, 12884901892);
    assert!(((hit.t.raw as f64) / 4294967296.0 - 3.0).abs() < 1e-8);
    assert!(hit.front_face);
    assert_eq!(hit.normal, raw(2576980377, 3435973836, 0));
}

#[test]
fn ray_that_passes_beyond_the_radius_misses() {
    let ray = Ray::new(whole(0, 2, 0), whole(0, 0, -1));
    assert_eq!(ball().hit(&ray, &forward()), None);
    let ray = Ray::new(whole(3, 0, 0), whole(0, 1, 0));
    assert_eq!(ball().hit(&ray, &forward()), None);
}

#[test]
fn ray_that_grazes_the_sphere_hits_it() {
    let ray = Ray::new(whole(0, 1, 0), whole(0, 0, -1));
    let hit = ball().hit(&ray, &forward()).unwrap();
    assert_eq!(hit.t, Scalar::from_int(5));
    assert_eq!(hit.point, whole(0, 1, -5));
}

#[test]
fn ray_from_inside_leaves_through_the_back_face() {
    let ray = Ray::new(whole(0, 0, -5), whole(0, 0, -1));
    let hit = ball().hit(&ray, &forward()).unwrap();
    assert_eq!(hit.t, Scalar::from_int(1));
    assert_eq!(hit.point, whole(0, 0, -6));
    assert!(!hit.front_face);
    assert_eq!(hit.normal, whole(0, 0, 1));
}

#[test]
fn sphere_behind_the_ray_is_not_hit() {
    let ray = Ray::new(whole(0, 0, -10), whole(0, 0, -1));
    assert_eq!(ball().hit(&ray, &forward()), None);
}

fn on_sphere(hit_point: Vec3<Scalar>, centre: Vec3<Scalar>, radius: Scalar) -> bool {
    ((hit_point - centre).mag().raw - radius.raw).abs() <= 4
}

#[test]
fn slow_ray_hits_where_a_fast_one_does() {
    let sphere = Sphere::new(whole(0, 0, -1), Scalar::from_ratio(1, 2), matte(1, 1, 1));
    let slow = Ray::new(whole(0, 0, 0), raw(0, 0, -65536));
    let hit = sphere.hit(&slow, &forward()).unwrap();
    assert_eq!(hit.t, Scalar::from_int(32768));
    assert_eq!(hit.point, raw(0, 0, -2147483648));
    assert_eq!(hit.normal, whole(0, 0, 1));
    assert!(hit.front_face);
    let slower = Ray::new(whole(0, 0, 0), raw(0, 0, -512));
    let hit = sphere.hit(&slower, &forward()).unwrap();
    assert_eq!(hit.t.raw, 18014398509481984);
    assert_eq!(hit.point, raw(0, 0, -2147483648));
    assert_eq!(hit.normal, whole(0, 0, 1));
    let fast = Ray::new(whole(0, 0, 0), whole(0, 0, -1));
    assert_eq!(sphere.hit(&fast, &forward()).unwrap().point, hit.point);
}

#[test]
fn slow_slanted_ray_hits_on_the_sphere() {
    let centre = whole(1, 2, -2);
    let sphere = Sphere::new(centre, Scalar::one(), matte(1, 1, 1));
    let ray = Ray::new(whole(0, 0, 0), raw(21845, 43690, -43690));
    let hit = sphere.hit(&ray, &forward()).unwrap();
    assert_eq!(hit.t.raw, 562958543486976);
    assert_eq!(hit.point, raw(2863311530, 5726623061, -5726623061));
    assert_eq!(hit.normal, raw(-1431655766, -2863311531, 2863311531));
    assert!(hit.front_face);
    assert!(on_sphere(hit.point, centre, Scalar::one()));
    assert!((hit.normal.mag().raw - 4294967296).abs() <= 4);
    assert_eq!(hit.point, ray.at(hit.t));
}

#[test]
fn small_sphere_far_away_is_hit_on_its_surface() {
    let centre = whole(300, -400, 1200);
    let radius = Scalar::from_ratio(1, 5);
    let sphere = Sphere::new(centre, radius, matte(1, 1, 1));
    let ray = Ray::new(whole(0, 0, 0), centre.normalize());
    let hit = sphere.hit(&ray, &forward()).unwrap();
    assert_eq!(hit.t.raw, 5582598492040);
    assert_eq!(hit.point, raw(1288291959601, -1717722611935, 5153167838406));
    assert_eq!(hit.normal, raw(-991145994, 1321532323, -3964583966));
    assert!(hit.front_face);
    assert!(on_sphere(hit.point, centre, radius));
}

#[test]
fn hits_lie_on_the_sphere_at_every_distance_and_speed() {
    let settings: [(i32, i32, i32, i64); 8] = [
        (2, 1, 2, 4294967296),
        (2, 1, 2, 4294967),
        (2, 1, 2, 4295),
        (100, 1, 1, 4294967296),
        (1000, 1, 2, 4294967296),
        (1000, 100, 1, 4294967296),
        (3000, 1, 5, 4294967296),
        (4000, 4000, 1, 2147483648),
    ];
    let mut rng = tracer::rng::Rng::new(2);
    for (distance, numerator, denominator, speed) in settings {
        let radius = Scalar::from_ratio(numerator, denominator);
        let far = Scalar::from_int(distance);
        let mut hits = 0;
        let mut k = 0;
        while k < 300 {
            let centre = Vec3::random_range_vec3(&mut rng, -far, far);
            let reach = radius + radius / Scalar::from_int(10);
            let aim = centre + Vec3::random_range_vec3(&mut rng, -reach, reach);
            let direction = aim.normalize() * Scalar::from_raw(speed);
            let sphere = Sphere::new(centre, radius, matte(1, 1, 1));
            assert!(sphere.in_range(&Ray::new(whole(0, 0, 0), direction)));
            if let Some(hit) = sphere.hit(&Ray::new(whole(0, 0, 0), direction), &forward()) {
                hits += 1;
                assert!(on_sphere(hit.point, centre, radius));
                assert!((hit.normal.mag().raw - 4294967296).abs() <= 4);
            }
            k += 1;
        }
        assert!(hits > 100);
    }
}

#[test]
fn fast_rays_hit_within_their_step_of_the_sphere() {
    let mut rng = tracer::rng::Rng::new(3);
    let mut hits = 0;
    let mut k = 0;
    while k < 600 {
        let centre = Vec3::random_range_vec3(&mut rng, Scalar::from_int(-50), Scalar::from_int(50));
        let radius = rng.random_float_interval(Scalar::from_ratio(1, 5), Scalar::from_int(3));
        let aim = centre + Vec3::random_range_vec3(&mut rng, -radius, radius);
        let speed = rng.random_float_interval(Scalar::one(), Scalar::from_int(16));
        let direction = aim.normalize() * speed;
        let sphere = Sphere::new(centre, radius, matte(1, 1, 1));
        let ray = Ray::new(whole(0, 0, 0), direction);
        if let Some(hit) = sphere.hit(&ray, &forward()) {
            hits += 1;
            let distance = (hit.point - centre).mag().raw;
            assert!((distance - radius.raw).abs() <= 32);
            assert_eq!(hit.point, ray.at(hit.t));
        }
        k += 1;
    }
    assert!(hits > 200);
}

#[test]
fn roots_come_in_order() {
    let sphere = ball();
    let ray = Ray::new(whole(0, 0, 0), whole(0, 0, -1));
    assert_eq!(sphere.roots(&ray), Some((Scalar::from_int(4), Scalar::from_int(6))));
    let slow = Ray::new(whole(0, 0, 0), raw(0, 0, -65536));
    assert_eq!(sphere.roots(&slow), Some((Scalar::from_int(4 * 65536), Scalar::from_int(6 * 65536))));
    let aside = Ray::new(whole(0, 2, 0), whole(0, 0, -1));
    assert_eq!(sphere.roots(&aside), None);
    let inside = Ray::new(whole(0, 0, -5), whole(0, 0, -1));
    assert_eq!(sphere.roots(&inside), Some((Scalar::from_int(-1), Scalar::from_int(1))));
}

#[test]
fn sphere_beyond_the_range_is_still_hit() {
    let sphere = Sphere::new(whole(5000, 0, 0), Scalar::one(), matte(1, 1, 1));
    let ray = Ray::new(whole(0, 0, 0), whole(1, 0, 0));
    assert!(!sphere.in_range(&ray));
    let hit = sphere.hit(&ray, &forward()).unwrap();
    assert_eq!(hit.t, Scalar::from_int(4999));
    assert_eq!(hit.point, whole(4999, 0, 0));
    assert_eq!(hit.normal, whole(-1, 0, 0));
    assert!(ball().in_range(&Ray::new(whole(0, 0, 0), whole(0, 0, -1))));
}

#[test]
fn ray_too_slow_for_its_parameter_hits_nothing() {
    let sphere = Sphere::new(whole(0, 0, -1), Scalar::from_ratio(1, 2), matte(1, 1, 1));
    let ray = Ray::new(whole(0, 0, 0), raw(0, 0, -1));
    assert_eq!(sphere.hit(&ray, &forward()), None);
}

#[test]
fn normals_of_hits_have_unit_length() {
    let centre = Vec3::new(Scalar::from_ratio(1, 3), Scalar::from_ratio(-1, 7), Scalar::from_int(-3));
    let sphere = Sphere::new(centre, Scalar::from_ratio(5, 4), matte(1, 1, 1));
    let mut rng = tracer::rng::Rng::new(77);
    let mut hits = 0;
    let mut k = 0;
    while k < 400 {
        let aim = Vec3::random_range_vec3(&mut rng, Scalar::from_int(-1), Scalar::from_int(1));
        let speed = rng.random_float_interval(Scalar::from_raw(4096), Scalar::from_int(3));
        let direction = (centre + aim - whole(0, 0, 0)).normalize() * speed;
        let ray = Ray::new(whole(0, 0, 0), direction);
        if let Some(hit) = sphere.hit(&ray, &forward()) {
            hits += 1;
            assert!((hit.normal.mag().raw - 4294967296).abs() <= 4);
            assert!(direction.dot(&hit.normal).raw <= 0);
            assert_eq!(hit.point, ray.at(hit.t));
        }
        k += 1;
    }
    assert!(hits > 100);
}

#[test]
fn sphere_of_negative_radius_turns_its_normal_inward() {
    let sphere = Sphere::new(whole(0, 0, -5), Scalar::from_int(-1), matte(1, 1, 1));
    let ray = Ray::new(whole(0, 0, 0), whole(0, 0, -1));
    let hit = sphere.hit(&ray, &forward()).unwrap();
    assert_eq!(hit.t, Scalar::from_int(4));
    assert_eq!(hit.normal, whole(0, 0, 1));
    assert!(!hit.front_face);
}

#[test]
fn ray_without_direction_hits_nothing() {
    let ray = Ray::new(whole(0, 0, 0), whole(0, 0, 0));
    assert_eq!(ball().hit(&ray, &forward()), None);
    let inside = Ray::new(whole(0, 0, -5), whole(0, 0, 0));
    assert_eq!(ball().hit(&inside, &forward()), None);
    let from_zero = Interval::new(Scalar::zero(), Scalar::infinity());
    assert_eq!(ball().hit(&inside, &from_zero), None);
}

#[test]
fn interval_decides_which_root_counts() {
    let ray = Ray::new(whole(0, 0, 0), whole(0, 0, -1));
    let beyond = Interval::new(Scalar::from_int(5), Scalar::infinity());
    let hit = ball().hit(&ray, &beyond).unwrap();
    assert_eq!(hit.t, Scalar::from_int(6));
    assert!(!hit.front_face);
    let before = Interval::new(Scalar::from_raw(429496), Scalar::from_int(4));
    assert_eq!(ball().hit(&ray, &before), None);
    let exact = Interval::new(Scalar::from_int(4), Scalar::from_int(6));
    assert_eq!(ball().hit(&ray, &exact), None);
}

#[test]
fn nearer_of_two_spheres_is_reported() {
    let far = Sphere::new(whole(0, 0, -5), Scalar::from_int(1), matte(1, 0, 0));
    let near = Sphere::new(whole(0, 0, -4), Scalar::from_int(1), matte(0, 1, 0));
    let ray = Ray::new(whole(0, 0, 0), whole(0, 0, -1));
    let mut world = HittableList::new();
    world.add(far);
    world.add(near);
    let hit = world.hit(&ray, &forward()).unwrap();
    assert_eq!(hit.t, Scalar::from_int(3));
    assert_eq!(hit.mat, matte(0, 1, 0));
    assert_eq!(Some(hit), near.hit(&ray, &forward()));
    let mut world = HittableList::new();
    world.add(near);
    world.add(far);
    let hit = world.hit(&ray, &forward()).unwrap();
    assert_eq!(hit.t, Scalar::from_int(3));
    assert_eq!(hit.mat, matte(0, 1, 0));
}

#[test]
fn first_of_two_equal_hits_is_kept() {
    let first = Sphere::new(whole(0, 0, -5), Scalar::from_int(1), matte(1, 0, 0));
    let second = Sphere::new(whole(0, 0, -5), Scalar::from_int(1), matte(0, 0, 1));
    let ray = Ray::new(whole(0, 0, 0), whole(0, 0, -1));
    let mut world = HittableList::new();
    world.add(first);
    world.add(second);
    assert_eq!(world.hit(&ray, &forward()).unwrap().mat, matte(1, 0, 0));
}

#[test]
fn list_grows_and_empties() {
    let mut world: HittableList<Sphere> = HittableList::new();
    let ray = Ray::new(whole(0, 0, 0), whole(0, 0, -1));
    assert_eq!(world.len(), 0);
    assert_eq!(world.hit(&ray, &forward()), None);
    world.add(ball());
    world.add(ball());
    assert_eq!(world.len(), 2);
    assert!(world.hit(&ray, &forward()).is_some());
    world.clear();
    assert_eq!(world.len(), 0);
    assert_eq!(world.hit(&ray, &forward()), None);
    let single = HittableList::from(ball());
    assert_eq!(single.len(), 1);
    assert_eq!(single.hit(&ray, &forward()), ball().hit(&ray, &forward()));
}

#[test]
fn list_of_lists_finds_the_nearest_of_all() {
    let far = Sphere::new(whole(0, 0, -9), Scalar::from_int(1), matte(1, 0, 0));
    let middle = Sphere::new(whole(0, 0, -6), Scalar::from_int(1), matte(0, 1, 0));
    let near = Sphere::new(whole(0, 0, -3), Scalar::from_int(1), matte(0, 0, 1));
    let mut back = HittableList::new();
    back.add(far);
    back.add(middle);
    let mut world = HittableList::new();
    world.add(back);
    world.add(HittableList::from(near));
    let ray = Ray::new(whole(0, 0, 0), whole(0, 0, -1));
    let hit = world.hit(&ray, &forward()).unwrap();
    assert_eq!(hit.t, Scalar::from_int(2));
    assert_eq!(hit.mat, matte(0, 0, 1));
}

#[test]
fn record_starts_empty_and_turns_its_normal_against_the_ray() {
    let mut record = HitRecord::default();
    assert_eq!(record.t, Scalar::zero());
    assert_eq!(record.point, whole(0, 0, 0));
    assert_eq!(record.normal, whole(0, 0, 0));
    assert!(record.front_face);
    assert_eq!(record.mat, AnyMaterial::Default(DefaultMaterial {}));
    let ray = Ray::new(whole(0, 0, 0), whole(0, 0, -1));
    record.set_face_normal(&ray, &whole(0, 0, 1));
    assert!(record.front_face);
    assert_eq!(record.normal, whole(0, 0, 1));
    record.set_face_normal(&ray, &whole(0, 0, -1));
    assert!(!record.front_face);
    assert_eq!(record.normal, whole(0, 0, 1));
    record.set_face_normal(&ray, &whole(1, 0, 0));
    assert!(!record.front_face);
    assert_eq!(record.normal, whole(-1, 0, 0));
}

#[test]
fn line_through_a_sphere_is_measured_along_the_unit_direction() {
    let ray = Ray::new(whole(0, 0, 0), whole(0, 0, -2));
    assert_eq!(tracer::hit_sphere(&whole(0, 0, -5), Scalar::from_int(1), &ray), Scalar::from_int(4));
    let ray = Ray::new(whole(0, 2, 0), whole(0, 0, -1));
    assert_eq!(tracer::hit_sphere(&whole(0, 0, -5), Scalar::from_int(1), &ray), Scalar::from_int(-1));
}

#[test]
fn normal_colours_what_is_hit_and_sky_what_is_not() {
    let world = HittableList::from(ball());
    let ray = Ray::new(whole(0, 0, 0), whole(0, 0, -1));
    assert_eq!(
        tracer::ray_color(&ray, &world),
        Vec3::new(Scalar::from_ratio(1, 2), Scalar::from_ratio(1, 2), Scalar::from_int(1))
    );
    let up = Ray::new(whole(0, 0, 0), whole(0, 1, 0));
    assert_eq!(tracer::ray_color(&up, &world), raw(2147483648, 3006477107, 4294967296));
}
