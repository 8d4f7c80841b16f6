use tracer::rng::Rng;
use tracer::scalar::Scalar;
use tracer::vec3::Vec3;

fn whole(x: i32, y: i32, z: i32) -> Vec3<Scalar> {
    Vec3::new(Scalar::from_int(x), Scalar::from_int(y), Scalar::from_int(z))
}

fn raw(x: i64, y: i64, z: i64) -> Vec3<Scalar> {
    Vec3::new(Scalar::from_raw(x), Scalar::from_raw(y), Scalar::from_raw(z))
}

#[test]
fn components_come_back_as_given() {
    let v = Vec3::new(1u8, 2u8, 3u8);
    assert_eq!(*v.x(), 1);
    assert_eq!(*v.y(), 2);
    assert_eq!(*v.z(), 3);
    let w = whole(4, 5, 6);
    assert_eq!(*w.x(), Scalar::from_int(4));
    assert_eq!(*w.y(), Scalar::from_int(5));
    assert_eq!(*w.z(), Scalar::from_int(6));
}

#[test]
fn origin_and_default_are_zero() {
    assert_eq!(Vec3::origin(), whole(0, 0, 0));
    let d: Vec3<Scalar> = Default::default();
    assert_eq!(d, whole(0, 0, 0));
}

#[test]
fn sum_does_not_depend_on_order() {
    let v = raw(123456789, -987654321, 5);
    let w = raw(-55555, 777777777777, 9223372036854775807);
    assert_eq!(v + w, w + v);
    assert_eq!(v + w, raw(123401234, 776790123456, 9223372036854775807));
}

#[test]
fn operators_work_by_component() {
    let v = whole(1, 2, 3);
    let w = Vec3::new(Scalar::from_int(-2), Scalar::from_ratio(1, 2), Scalar::from_int(4));
    assert_eq!(v - w, Vec3::new(Scalar::from_int(3), Scalar::from_ratio(3, 2), Scalar::from_int(-1)));
    assert_eq!(-v, whole(-1, -2, -3));
    assert_eq!(v.negate(), whole(-1, -2, -3));
    assert_eq!(v * Scalar::from_int(3), whole(3, 6, 9));
    assert_eq!(Scalar::from_int(3) * v, whole(3, 6, 9));
    assert_eq!(whole(2, 4, 6) / Scalar::from_int(2), v);
    assert_eq!(v * w, raw(-8589934592, 4294967296, 51539607552));
}

#[test]
fn assignment_operators_work_by_component() {
    let mut v = whole(1, 2, 3);
    v += whole(1, 1, 1);
    assert_eq!(v, whole(2, 3, 4));
    v -= whole(2, 2, 2);
    assert_eq!(v, whole(0, 1, 2));
    v *= Scalar::from_int(4);
    assert_eq!(v, whole(0, 4, 8));
    v /= Scalar::from_int(2);
    assert_eq!(v, whole(0, 2, 4));
}

#[test]
fn scaling_twice_by_whole_numbers_is_scaling_by_their_product() {
    let v = raw(123456789, -987654321, 5);
    let s = Scalar::from_int(3);
    let t = Scalar::from_int(-7);
    assert_eq!((v * s) * t, v * (s * t));
    assert_eq!((v * s) * t, raw(-2592592569, 20740740741, -105));
}

#[test]
fn scaling_twice_by_fractions_rounds_twice() {
    let v = raw(3, 0, 0);
    let half = Scalar::from_ratio(1, 2);
    let two = Scalar::from_int(2);
    assert_eq!((v * half) * two, raw(2, 0, 0));
    assert_eq!(v * (half * two), raw(3, 0, 0));
}

#[test]
fn dot_and_cross_of_two_vectors() {
    let v = whole(1, 2, 3);
    let w = Vec3::new(Scalar::from_int(-2), Scalar::from_ratio(1, 2), Scalar::from_int(4));
    assert_eq!(v.dot(&w).raw, 47244640256);
    assert_eq!(Vec3::dot_explicit(&v, &w).raw, 47244640256);
    assert_eq!(v.cross(&w), raw(27917287424, -42949672960, 19327352832));
}

#[test]
fn cross_of_a_vector_with_itself_is_zero() {
    let v = raw(123456789, -987654321, 5555555555555);
    assert_eq!(v.cross(&v), whole(0, 0, 0));
}

#[test]
fn dot_with_itself_is_the_squared_length() {
    let v = whole(3, 4, 0);
    assert_eq!(v.mag(), Scalar::from_int(5));
    assert_eq!(v.dot(&v), Scalar::from_int(25));
    assert_eq!(v.mag() * v.mag(), v.dot(&v));
    let u = whole(2, -3, 6);
    assert_eq!(u.mag(), Scalar::from_int(7));
    assert_eq!(u.mag() * u.mag(), u.dot(&u));
    let w = whole(1, 1, 0);
    let gap = w.dot(&w).raw - (w.mag() * w.mag()).raw;
    assert!(-2 <= gap && gap <= 2 * w.mag().trunc() + 2);
    assert_eq!(gap, 3);
}

#[test]
fn normalized_vector_has_unit_length() {
    let v = whole(3, 4, 0);
    assert_eq!(v.normalize(), raw(2576980377, 3435973836, 0));
    assert_eq!(v.normalize().mag().raw, 4294967295);
    assert_eq!(Vec3::unit_vector(&v), v.normalize());
    let n = whole(1, 1, 1).normalize();
    assert_eq!(n, raw(2479700524, 2479700524, 2479700524));
    let vectors = [raw(1 << 30, 0, 0), raw(-5000000000, 123456789012, 7), whole(-1000, 2000, 30000)];
    for v in vectors {
        let length = v.normalize().mag().raw;
        assert!((length - 4294967296).abs() <= 4);
        assert!(((length as f64) / 4294967296.0 - 1.0).abs() < 1e-9);
    }
}

#[test]
fn short_vector_normalizes_to_unit_length() {
    assert_eq!(raw(65536, 65536, 0).normalize(), raw(3037000501, 3037000501, 0));
    assert_eq!(raw(65536, 65536, 0).normalize().mag().raw, 4294967297);
    assert_eq!(raw(1, 0, 0).normalize(), whole(1, 0, 0));
    assert_eq!(raw(3, -4, 0).normalize(), raw(2576980377, -3435973836, 0));
    assert_eq!(raw(1, 1, 1).normalize(), raw(2479700525, 2479700525, 2479700525));
    assert_eq!(raw(-7, 2, 5).normalize(), raw(-3404164982, 972618566, 2431546416));
    assert_eq!(raw(42, 0, -42).normalize(), raw(3037000500, 0, -3037000500));
    let mut rng = Rng::new(5);
    let mut k = 0;
    while k < 500 {
        let bits = (k % 40) as u32;
        let limit = Scalar::from_raw(1i64 << bits);
        let v = Vec3::random_range_vec3(&mut rng, -limit, limit);
        if v != whole(0, 0, 0) {
            let length = v.normalize().mag().raw;
            assert!((length - 4294967296).abs() <= 4);
            assert!(((length as f64) / 4294967296.0 - 1.0).abs() < 1e-9);
        }
        k += 1;
    }
}

#[test]
fn long_vector_normalizes_to_unit_length() {
    let top = 9223372036854775807;
    for v in [raw(top, top, top), raw(-top - 1, 0, top), raw(1 << 62, -(1 << 61), 12345)] {
        let length = v.normalize().mag().raw;
        assert!((length - 4294967296).abs() <= 4);
    }
}

#[test]
fn amplified_vector_is_a_quarter_long_or_more() {
    assert_eq!(raw(65536, -3, 0).amplified(), (raw(1073741824, -49152, 0), 16384));
    assert_eq!(whole(0, 0, 0).amplified(), (whole(0, 0, 0), 1));
    assert_eq!(whole(1, 0, 0).amplified(), (whole(1, 0, 0), 1));
    assert_eq!(raw(65536, -3, 0).largest(), 65536);
    assert_eq!(raw(-9223372036854775807 - 1, 5, 0).largest(), 9223372036854775808);
}

#[test]
fn zero_vector_normalizes_to_zero() {
    assert_eq!(whole(0, 0, 0).normalize(), whole(0, 0, 0));
    assert_eq!(whole(0, 0, 0).mag(), Scalar::zero());
    assert_eq!(Vec3::unit_vector(&whole(0, 0, 0)), whole(0, 0, 0));
}

#[test]
fn length_of_the_largest_vector_saturates() {
    let top = 9223372036854775807;
    assert_eq!(raw(top, top, top).mag(), Scalar::infinity());
    assert_eq!(raw(-top - 1, -top - 1, -top - 1).mag(), Scalar::infinity());
}

#[test]
fn near_zero_looks_at_every_component() {
    assert!(raw(41, -41, 0).near_zero());
    assert!(!raw(42, 0, 0).near_zero());
    assert!(!raw(0, -42, 0).near_zero());
    assert!(!raw(0, 0, 4294967296).near_zero());
}

#[test]
fn reflection_turns_the_part_along_the_normal() {
    let up = whole(0, 1, 0);
    assert_eq!(Vec3::reflect(&whole(1, -2, 3), &up), whole(1, 2, 3));
    let n = whole(1, 1, 1).normalize();
    let v = whole(1, -1, 0);
    let mirrored = Vec3::reflect(&v, &n);
    assert!((mirrored.dot(&n).raw - (-v).dot(&n).raw).abs() < 43);
}

#[test]
fn refraction_follows_snell() {
    let up = whole(0, 1, 0);
    let ratio = Scalar::from_ratio(2, 3);
    assert_eq!(Vec3::refract(&whole(0, -1, 0), &up, ratio), whole(0, -1, 0));
    let slanted = whole(1, -1, 0).normalize();
    assert_eq!(slanted, raw(3037000500, -3037000500, 0));
    assert_eq!(Vec3::refract(&slanted, &up, ratio), raw(2024666999, -3787805119, 0));
}

#[test]
fn random_vectors_follow_the_generator() {
    let mut rng = Rng::new(1);
    let v = Vec3::random_vec3(&mut rng);
    assert_eq!(v, raw(1817669548, 2187888307, 2784682393));
    let mut rng = Rng::new(1);
    let v = Vec3::random_range_vec3(&mut rng, Scalar::from_int(-1), Scalar::from_int(1));
    assert_eq!(v, raw(-659628200, 80809318, 1274397490));
    assert_eq!(rng.state, 11960119808228829710);
}

#[test]
fn random_point_of_the_disk_lies_in_the_disk() {
    let mut rng = Rng::new(1);
    let p = Vec3::random_in_unit_disk(&mut rng);
    assert_eq!(p, raw(-659628200, 80809318, 0));
    assert_eq!(rng.state, 9396908728118811419);
    let mut seed = 0;
    while seed < 200 {
        let mut rng = Rng::new(seed);
        let p = Vec3::random_in_unit_disk(&mut rng);
        assert_eq!(p.z().raw, 0);
        assert!(p.dot(&p).raw < 4294967296);
        seed += 1;
    }
}

#[test]
fn random_unit_vector_has_unit_length() {
    let mut rng = Rng::new(1);
    let u = Vec3::random_unit_vector(&mut rng);
    assert_eq!(u, raw(-1971162633, 241481956, 3808273679));
    assert_eq!(rng.state, 11960119808228829710);
    let mut seed = 0;
    while seed < 200 {
        let mut rng = Rng::new(seed);
        let u = Vec3::random_unit_vector(&mut rng);
        assert!((u.mag().raw - 4294967296).abs() <= 4);
        seed += 1;
    }
}

#[test]
fn random_vector_on_a_hemisphere_sides_with_the_normal() {
    let up = whole(0, 1, 0);
    let down = whole(0, -1, 0);
    let mut seed = 0;
    while seed < 100 {
        let mut rng = Rng::new(seed);
        let plain = Vec3::random_unit_vector(&mut rng);
        let mut rng = Rng::new(seed);
        let upper = Vec3::random_on_hemisphere(&mut rng, &up);
        let mut rng = Rng::new(seed);
        let lower = Vec3::random_on_hemisphere(&mut rng, &down);
        assert!(upper.y().raw >= 0);
        assert!(lower.y().raw <= 0);
        assert!(upper == plain || upper == -plain);
        assert!(lower == -upper || upper.y().raw == 0);
        seed += 1;
    }
}
