use pathtrace::scalar::Real;
use pathtrace::scalar::HALF_PI_RAW;
use pathtrace::scalar::MAX_RAW;
use pathtrace::scalar::ONE_RAW;
use pathtrace::scalar::PI_RAW;
use pathtrace::scalar::TWO_PI_RAW;

/// The fixed-point number nearest to `x`.
fn sx(x: f64) -> Real {
    Real::from_raw((x * 4294967296.0).round() as i64)
}

/// The number that `x` stands for.
fn back(x: Real) -> f64 {
    x.raw as f64 / 4294967296.0
}

#[test]
fn whole_numbers_and_fractions() {
    assert_eq!(Real::from_int(3).raw, 3 * ONE_RAW);
    assert_eq!(Real::from_int(-2).raw, -2 * ONE_RAW);
    assert_eq!(Real::zero().raw, 0);
    assert_eq!(Real::one().raw, ONE_RAW);
    assert_eq!(Real::epsilon().raw, 1);
    assert_eq!(Real::infinity().raw, MAX_RAW);
    assert_eq!(Real::from_ratio(1, 2).raw, ONE_RAW / 2);
    assert_eq!(Real::from_ratio(255999, 1000).raw, 1099507332808);
    assert_eq!(Real::from_usize(7).raw, 7 * ONE_RAW);
    assert_eq!(Real::from_usize(usize::MAX).raw, MAX_RAW);
}

#[test]
fn sums_stick_at_the_ends_of_the_range() {
    assert_eq!(sx(1.5) + sx(2.25), sx(3.75));
    assert_eq!(sx(1.5) - sx(2.25), sx(-0.75));
    assert_eq!(Real::infinity() + sx(1.0), Real::infinity());
    assert_eq!(Real::from_raw(i64::MIN) - sx(1.0), Real::from_raw(i64::MIN));
    assert_eq!(-Real::from_raw(i64::MIN), Real::infinity());
    assert_eq!(Real::from_raw(i64::MIN).abs(), Real::infinity());
    assert_eq!(-sx(2.0), sx(-2.0));
    assert_eq!(sx(-2.5).abs(), sx(2.5));
}

#[test]
fn products_and_quotients_round_toward_zero() {
    assert_eq!(sx(1.5) * sx(-2.0), sx(-3.0));
    assert_eq!(Real::from_raw(1) * Real::from_raw(1), Real::zero());
    assert_eq!(Real::from_raw(-3) * sx(0.5), Real::from_raw(-1));
    assert_eq!(Real::from_raw(3) * sx(0.5), Real::from_raw(1));
    assert_eq!(sx(1.0) / sx(3.0), Real::from_raw(1431655765));
    assert_eq!(sx(-1.0) / sx(3.0), Real::from_raw(-1431655765));
    assert_eq!(sx(100000.0) * sx(100000.0), Real::infinity());
    assert_eq!(sx(-100000.0) * sx(100000.0), Real::from_raw(i64::MIN));
}

#[test]
fn division_by_zero_is_total() {
    assert_eq!(sx(1.0) / Real::zero(), Real::infinity());
    assert_eq!(sx(-1.0) / Real::zero(), Real::from_raw(i64::MIN));
    assert_eq!(Real::zero() / Real::zero(), Real::zero());
}

#[test]
fn square_roots_round_down() {
    assert_eq!(sx(25.0).sqrt(), sx(5.0));
    assert_eq!(sx(0.25).sqrt(), sx(0.5));
    assert_eq!(Real::zero().sqrt(), Real::zero());
    assert_eq!(sx(-4.0).sqrt(), Real::zero());
    let root = sx(2.0).sqrt();
    assert_eq!(root.raw, 6074000999);
    let n = 2i128 << 64;
    assert!((root.raw as i128) * (root.raw as i128) <= n);
    assert!((root.raw as i128 + 1) * (root.raw as i128 + 1) > n);
}

#[test]
fn floors_ceilings_and_order() {
    assert_eq!(sx(2.5).floor(), sx(2.0));
    assert_eq!(sx(-2.5).floor(), sx(-3.0));
    assert_eq!(sx(2.5).ceil(), sx(3.0));
    assert_eq!(sx(-2.5).ceil(), sx(-2.0));
    assert_eq!(sx(4.0).ceil(), sx(4.0));
    assert_eq!(Real::infinity().ceil(), Real::infinity());
    assert_eq!(sx(1.0).min(sx(2.0)), sx(1.0));
    assert_eq!(sx(1.0).max(sx(2.0)), sx(2.0));
    assert!(sx(1.0).lt(sx(2.0)));
    assert!(sx(2.0).le(sx(2.0)));
    assert!(sx(3.0).gt(sx(2.0)));
    assert!(sx(2.0).ge(sx(2.0)));
    assert!(!sx(2.0).lt(sx(2.0)));
}

#[test]
fn powers_and_degrees() {
    assert_eq!(sx(2.0).powi(5), sx(32.0));
    assert_eq!(sx(0.5).powi(0), sx(1.0));
    assert_eq!(sx(-3.0).powi(3), sx(-27.0));
    assert!((back(sx(180.0).to_radians()) - std::f64::consts::PI).abs() < 1e-8);
    assert!((back(sx(90.0).to_radians()) - std::f64::consts::FRAC_PI_2).abs() < 1e-8);
}

#[test]
fn circular_functions_follow_the_true_ones() {
    let mut angle = -7.0;
    while angle < 7.0 {
        let a = sx(angle);
        assert!((back(a.sin()) - back(a).sin()).abs() < 1e-7, "sine at {}", angle);
        assert!((back(a.cos()) - back(a).cos()).abs() < 1e-7, "cosine at {}", angle);
        angle += 0.01;
    }
    assert_eq!(Real::zero().sin(), Real::zero());
    assert_eq!(Real::zero().cos(), sx(1.0));
    assert!((back(Real::from_raw(HALF_PI_RAW).sin()) - 1.0).abs() < 1e-8);
    assert!((back(Real::from_raw(PI_RAW).cos()) + 1.0).abs() < 1e-8);
    assert!((back(sx(0.5).tan()) - 0.5f64.tan()).abs() < 1e-7);
}

#[test]
fn arc_sine_inverts_the_sine() {
    let mut v = -1.0;
    while v <= 1.0 {
        let angle = sx(v).asin();
        assert!(angle.raw >= -HALF_PI_RAW && angle.raw <= HALF_PI_RAW);
        assert!((back(angle) - v.asin()).abs() < 1e-4, "arc sine at {}", v);
        v += 0.05;
    }
}

#[test]
fn angles_wrap_into_one_turn() {
    assert_eq!(sx(1.0).wrapped(), sx(1.0));
    assert_eq!(Real::from_raw(TWO_PI_RAW).wrapped(), Real::zero());
    assert_eq!(Real::from_raw(-1).wrapped(), Real::from_raw(TWO_PI_RAW - 1));
    assert_eq!(Real::from_raw(3 * TWO_PI_RAW + 5).wrapped(), Real::from_raw(5));
    let wrapped = sx(-100.0).wrapped();
    assert!(wrapped.raw >= 0 && wrapped.raw < TWO_PI_RAW);
}
