use tracer::arith::floor_sqrt_of;
use tracer::scalar::Scalar;
use tracer::scalar::MAX_RAW;
use tracer::scalar::MIN_RAW;
use tracer::scalar::PI_RAW;
use tracer::scalar::SCALE;

fn fixed(x: f64) -> Scalar {
    Scalar::from_raw((x * 4294967296.0) as i64)
}

fn approx(x: Scalar) -> f64 {
    x.raw as f64 / 4294967296.0
}

#[test]
fn whole_numbers_add_exactly() {
    let a = Scalar::from_int(2);
    let b = Scalar::from_int(3);
    assert_eq!((a + b).raw, 5 * SCALE);
    assert_eq!((a - b).raw, -SCALE);
    assert_eq!((a * b).raw, 6 * SCALE);
    assert_eq!(-a, Scalar::from_int(-2));
    assert_eq!(a.negate(), Scalar::from_int(-2));
}

#[test]
fn constants_have_their_raw_values() {
    assert_eq!(Scalar::zero().raw, 0);
    assert_eq!(Scalar::one().raw, 4294967296);
    assert_eq!(Scalar::infinity().raw, MAX_RAW);
    assert_eq!(Scalar::pi().raw, PI_RAW);
    assert_eq!(fixed(3.14159265358979323846).raw, PI_RAW);
    assert_eq!(Scalar::from_raw(17).raw, 17);
    assert_eq!(Scalar::default(), Scalar::zero());
    assert_eq!(Scalar::from_u32(7), Scalar::from_int(7));
    assert_eq!(Scalar::from_u32(4000000000).raw, MAX_RAW);
    assert_eq!(Scalar::from_int(-2147483648).raw, MIN_RAW);
}

#[test]
fn product_rounds_toward_zero() {
    let third = Scalar::from_ratio(1, 3);
    let minus_third = Scalar::from_ratio(-1, 3);
    assert_eq!(third.raw, 1431655765);
    assert_eq!(minus_third.raw, -1431655765);
    assert_eq!((third * third).raw, 477218588);
    assert_eq!((minus_third * third).raw, -477218588);
    assert_eq!((minus_third * minus_third).raw, 477218588);
}

#[test]
fn quotient_rounds_toward_zero() {
    assert_eq!((Scalar::from_int(7) / Scalar::from_int(2)).raw, 15032385536);
    assert_eq!((Scalar::from_int(-7) / Scalar::from_int(2)).raw, -15032385536);
    assert_eq!((Scalar::from_int(7) / Scalar::from_int(-2)).raw, -15032385536);
    assert_eq!(Scalar::from_ratio(7, 10).raw, 3006477107);
}

#[test]
fn sums_and_products_saturate() {
    let top = Scalar::infinity();
    let bottom = Scalar::from_raw(MIN_RAW);
    assert_eq!(top + Scalar::one(), top);
    assert_eq!(bottom - Scalar::one(), bottom);
    assert_eq!(-bottom, top);
    assert_eq!(bottom.abs(), top);
    assert_eq!(Scalar::from_int(60000) * Scalar::from_int(60000), top);
    assert_eq!(Scalar::from_int(60000) * Scalar::from_int(-60000), bottom);
    assert_eq!(Scalar::one() / Scalar::from_raw(1), top);
    assert_eq!(Scalar::from_int(-1) / Scalar::from_raw(1), bottom);
}

#[test]
fn division_by_zero_sticks_at_the_bounds() {
    let zero = Scalar::zero();
    assert_eq!(Scalar::from_int(3) / zero, Scalar::infinity());
    assert_eq!(Scalar::from_int(-3) / zero, Scalar::from_raw(MIN_RAW));
    assert_eq!(zero / zero, zero);
}

#[test]
fn root_of_four_is_two() {
    assert_eq!(Scalar::from_int(4).sqrt(), Scalar::from_int(2));
    assert_eq!(Scalar::from_int(2).sqrt().raw, 6074000999);
    assert_eq!(Scalar::from_int(-4).sqrt(), Scalar::zero());
    assert_eq!(Scalar::zero().sqrt(), Scalar::zero());
    assert_eq!(Scalar::from_raw(1).sqrt().raw, 65536);
}

#[test]
fn integer_root_brackets_its_argument() {
    assert_eq!(floor_sqrt_of(0), 0);
    assert_eq!(floor_sqrt_of(1), 1);
    assert_eq!(floor_sqrt_of(15), 3);
    assert_eq!(floor_sqrt_of(16), 4);
    assert_eq!(floor_sqrt_of(17), 4);
    assert_eq!(floor_sqrt_of(u128::MAX), 18446744073709551615);
    let n: u128 = 123456789012345678901234567890;
    let r = floor_sqrt_of(n) as u128;
    assert!(r * r <= n && n < (r + 1) * (r + 1));
}

#[test]
fn whole_part_rounds_toward_zero() {
    assert_eq!(fixed(2.75).trunc(), 2);
    assert_eq!(fixed(-2.75).trunc(), -2);
    assert_eq!(Scalar::from_int(5).trunc(), 5);
    assert_eq!(Scalar::infinity().trunc(), 2147483647);
    assert_eq!(Scalar::from_raw(MIN_RAW).trunc(), -2147483648);
}

#[test]
fn scalars_are_ordered_as_numbers() {
    assert!(Scalar::from_int(-3) < Scalar::from_int(2));
    assert!(Scalar::from_ratio(1, 3) < Scalar::from_ratio(1, 2));
    assert!(Scalar::from_raw(MIN_RAW) < Scalar::zero());
    assert!(Scalar::infinity() > Scalar::from_int(2147483647));
    assert!(Scalar::one() <= Scalar::one());
}

#[test]
fn scalar_is_taken_a_number_of_times() {
    assert_eq!(Scalar::from_int(3).times(5), Scalar::from_int(15));
    assert_eq!(Scalar::from_ratio(-1, 2).times(4), Scalar::from_int(-2));
    assert_eq!(Scalar::infinity().times(2), Scalar::infinity());
    assert_eq!(Scalar::from_int(7).times(0), Scalar::zero());
}

#[test]
fn smaller_and_larger_of_two() {
    let a = Scalar::from_int(2);
    let b = Scalar::from_int(-3);
    assert_eq!(a.min(b), b);
    assert_eq!(a.max(b), a);
    assert_eq!(b.abs(), Scalar::from_int(3));
    assert_eq!(a.abs(), a);
}

#[test]
fn sine_cosine_and_tangent_at_known_angles() {
    let half_pi = Scalar::pi() / Scalar::from_int(2);
    let quarter_pi = Scalar::pi() / Scalar::from_int(4);
    assert_eq!(Scalar::zero().sin().raw, 0);
    assert_eq!(Scalar::zero().cos().raw, 4294967296);
    assert_eq!(half_pi.sin().raw, 4294967296);
    assert_eq!(half_pi.cos().raw, 0);
    assert_eq!(quarter_pi.tan().raw, 4294967294);
    assert_eq!(Scalar::one().sin().raw, 3614090361);
    assert_eq!(Scalar::one().cos().raw, 2320580734);
    assert_eq!(Scalar::one().tan().raw, 6689015244);
}

#[test]
fn series_agree_with_the_real_functions() {
    let mut k = 0;
    while k <= 15 {
        let x = k as f64 / 10.0;
        assert!((approx(fixed(x).sin()) - x.sin()).abs() < 1e-8);
        assert!((approx(fixed(x).cos()) - x.cos()).abs() < 1e-8);
        assert!((approx(fixed(-x).sin()) + x.sin()).abs() < 1e-8);
        k += 1;
    }
    assert!((approx(fixed(0.3).tan()) - (0.3f64).tan()).abs() < 1e-8);
}

#[test]
fn degrees_become_radians() {
    assert_eq!(tracer::degrees_to_radians(Scalar::from_int(180)).raw, 13493037704);
    assert_eq!(tracer::degrees_to_radians(Scalar::from_int(90)).raw, 6746518852);
    assert_eq!(tracer::degrees_to_radians(Scalar::zero()).raw, 0);
}
