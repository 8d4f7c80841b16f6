use tracer::interval::Interval;
use tracer::interval::IntervalWorldChoice;
use tracer::ray::Ray;
use tracer::rng::Rng;
use tracer::scalar::Scalar;
use tracer::scalar::MAX_RAW;
use tracer::scalar::MIN_RAW;
use tracer::vec3::Vec3;

fn whole(x: i32, y: i32, z: i32) -> Vec3<Scalar> {
    Vec3::new(Scalar::from_int(x), Scalar::from_int(y), Scalar::from_int(z))
}

#[test]
fn ray_keeps_its_parts() {
    let ray = Ray::new(whole(1, 2, 3), whole(4, 5, 6));
    assert_eq!(*ray.origin(), whole(1, 2, 3));
    assert_eq!(*ray.direction(), whole(4, 5, 6));
}

#[test]
fn ray_starts_at_its_origin() {
    let ray = Ray::new(
        Vec3::new(Scalar::from_raw(123), Scalar::from_raw(-456), Scalar::from_raw(MAX_RAW)),
        Vec3::new(Scalar::from_raw(MIN_RAW), Scalar::from_raw(7), Scalar::from_raw(-9)),
    );
    assert_eq!(ray.at(Scalar::zero()), *ray.origin());
}

#[test]
fn ray_moves_along_its_direction() {
    let ray = Ray::new(whole(1, 2, 3), whole(4, -5, 6));
    assert_eq!(ray.at(Scalar::from_int(2)), whole(9, -8, 15));
    assert_eq!(ray.at(Scalar::from_int(-1)), whole(-3, 7, -3));
    assert_eq!(
        ray.at(Scalar::from_ratio(1, 2)),
        Vec3::new(Scalar::from_int(3), Scalar::from_ratio(-1, 2), Scalar::from_int(6))
    );
}

#[test]
fn ray_is_affine_up_to_one_unit() {
    let ray = Ray::new(
        Vec3::new(Scalar::from_ratio(1, 3), Scalar::from_ratio(-2, 7), Scalar::from_int(5)),
        Vec3::new(Scalar::from_ratio(5, 9), Scalar::from_ratio(-1, 13), Scalar::from_ratio(22, 7)),
    );
    let mut rng = Rng::new(11);
    let mut k = 0;
    while k < 200 {
        let s = rng.random_float_interval(Scalar::from_int(-100), Scalar::from_int(100));
        let t = rng.random_float_interval(Scalar::from_int(-100), Scalar::from_int(100));
        let joined = ray.at(s + t);
        let pieced = ray.at(s) + (ray.at(t) - *ray.origin());
        assert!((joined.x().raw - pieced.x().raw).abs() <= 1);
        assert!((joined.y().raw - pieced.y().raw).abs() <= 1);
        assert!((joined.z().raw - pieced.z().raw).abs() <= 1);
        k += 1;
    }
}

#[test]
fn interval_keeps_its_bounds() {
    let interval = Interval::new(Scalar::from_int(2), Scalar::from_int(5));
    assert_eq!(interval.min(), Scalar::from_int(2));
    assert_eq!(interval.max(), Scalar::from_int(5));
    assert_eq!(interval.size(), Scalar::from_int(3));
}

#[test]
fn contains_takes_the_bounds_and_surrounds_does_not() {
    let interval = Interval::new(Scalar::from_int(2), Scalar::from_int(5));
    assert!(interval.contains(Scalar::from_int(2)));
    assert!(interval.contains(Scalar::from_int(5)));
    assert!(interval.contains(Scalar::from_int(3)));
    assert!(!interval.contains(Scalar::from_int(6)));
    assert!(!interval.contains(Scalar::from_raw(2 * 4294967296 - 1)));
    assert!(!interval.surrounds(Scalar::from_int(2)));
    assert!(!interval.surrounds(Scalar::from_int(5)));
    assert!(interval.surrounds(Scalar::from_int(3)));
    assert!(interval.surrounds(Scalar::from_raw(2 * 4294967296 + 1)));
}

#[test]
fn clamp_moves_to_the_nearer_bound() {
    let interval = Interval::new(Scalar::from_int(2), Scalar::from_int(5));
    assert_eq!(interval.clamp(Scalar::from_int(1)), Scalar::from_int(2));
    assert_eq!(interval.clamp(Scalar::from_int(9)), Scalar::from_int(5));
    assert_eq!(interval.clamp(Scalar::from_int(4)), Scalar::from_int(4));
}

#[test]
fn default_interval_starts_and_ends_at_infinity() {
    let interval = Interval::default();
    assert_eq!(interval.min(), Scalar::infinity());
    assert_eq!(interval.max(), Scalar::infinity());
    assert_eq!(interval.size(), Scalar::zero());
}

#[test]
fn empty_holds_nothing_and_universe_holds_all() {
    let empty = Interval::world_choice(IntervalWorldChoice::Empty);
    let universe = Interval::world_choice(IntervalWorldChoice::Universe);
    assert_eq!(empty.min().raw, MAX_RAW);
    assert_eq!(empty.max().raw, MIN_RAW);
    assert_eq!(universe.min().raw, MIN_RAW);
    assert_eq!(universe.max().raw, MAX_RAW);
    for raw in [MIN_RAW, -1, 0, 1, MAX_RAW] {
        assert!(!empty.contains(Scalar::from_raw(raw)));
        assert!(universe.contains(Scalar::from_raw(raw)));
    }
    assert_eq!(universe.size(), Scalar::infinity());
}

#[test]
fn generator_follows_its_recurrence() {
    let mut rng = Rng::new(1);
    assert_eq!(rng.random_float().raw, 1817669548);
    assert_eq!(rng.random_float().raw, 2187888307);
    assert_eq!(rng.random_float().raw, 2784682393);
    assert_eq!(rng.random_float().raw, 1644385741);
    let mut rng = Rng::new(0);
    rng.random_float();
    assert_eq!(rng.state, 1442695040888963407);
    let mut rng = Rng::new(1);
    assert_eq!(rng.random_float_interval(Scalar::from_int(2), Scalar::from_int(5)).raw, 14042943236);
    assert_eq!(rng.state, 7806831264735756412);
}

#[test]
fn draws_lie_between_zero_and_one() {
    let mut rng = Rng::new(99);
    let mut k = 0;
    while k < 1000 {
        let x = rng.random_float();
        assert!(0 <= x.raw && x.raw < 4294967296);
        let y = rng.random_float_interval(Scalar::from_int(-3), Scalar::from_int(4));
        assert!(-3 * 4294967296 <= y.raw && y.raw < 4 * 4294967296);
        k += 1;
    }
}
