use pathtrace::primitives::Point3R;
use pathtrace::primitives::Ray;
use pathtrace::primitives::Unit3R;
use pathtrace::primitives::Vec2R;
use pathtrace::primitives::Vec3R;
use pathtrace::scalar::Real;

/// The fixed-point number nearest to `x`.
fn fx(x: f64) -> Real {
    Real::from_raw((x * 4294967296.0).round() as i64)
}

#[test]
fn vec2r_test() {
    let v1 = Vec2R::new(fx(2.0), fx(3.0));
    assert_eq!(v1.x, fx(2.0), "x should be 2.0");
    assert_eq!(v1.y, fx(3.0), "y should be 3.0");
    assert_eq!(v1 * fx(2.0), Vec2R::new(fx(4.0), fx(6.0)), "v1 (left) should be scaled");
    assert_eq!(
        fx(2.0) * v1,
        Vec2R::new(fx(4.0), fx(6.0)),
        "v1 (right) should be scaled up"
    );
    assert_eq!(v1 / fx(2.0), Vec2R::new(fx(1.0), fx(1.5)), "v1 should be scaled down");
    let v2 = Vec2R::new(fx(5.0), fx(1.0));
    assert_eq!(v1 + v2, Vec2R::new(fx(7.0), fx(4.0)), "v1 + v2");
    assert_eq!(v1 - v2, Vec2R::new(fx(-3.0), fx(2.0)), "v1 - v2");
    assert_eq!(v1 * v2, Vec2R::new(fx(10.0), fx(3.0)), "v1 * v2");
    assert_eq!(v1 / v2, Vec2R::new(fx(0.4), fx(3.0)), "v1 / v2");

    assert_eq!(v1.dot(&v2), fx(13.0), "v1.dot(v2)");

    assert_eq!(v1.length_squared(), fx(13.0), "length squared");
    assert_eq!(Vec2R::new(fx(3.0), fx(4.0)).length(), fx(5.0), "length of (3, 4)");

    let delta = Vec2R::new(fx(5.0), fx(7.0)).normalize() - Vec2R::new(fx(0.581), fx(0.814));
    assert!(delta.min_component() < fx(0.001), "normalize");

    assert_eq!(
        Vec2R::new(fx(5.0), fx(7.0)).min(&Vec2R::new(fx(6.0), fx(2.0))),
        Vec2R::new(fx(5.0), fx(2.0)),
        "min between vecs"
    );
    assert_eq!(
        Vec2R::new(fx(5.0), fx(7.0)).max(&Vec2R::new(fx(6.0), fx(2.0))),
        Vec2R::new(fx(6.0), fx(7.0)),
        "max between vecs"
    );

    assert_eq!(Vec2R::new(fx(5.0), fx(7.0)).max_component(), fx(7.0), "max component");
    assert_eq!(Vec2R::new(fx(5.0), fx(7.0)).min_component(), fx(5.0), "min component");

    assert_eq!(Vec2R::new(fx(5.0), fx(7.0)).swap(), Vec2R::new(fx(7.0), fx(5.0)), "swap");

    let v1 = Vec2R::new(fx(3.0), fx(2.0));
    let v2 = Vec2R::new(fx(7.0), fx(8.0));

    assert!((v1.distance(&v2) - fx(7.21)).abs() < fx(0.01), "distance epsilon");
    assert_eq!(v1.distance_squared(&v2), fx(52.0), "distance squared");

    assert_eq!(v2.abs(), v2, "abs (self)");
    assert_eq!(Vec2R::new(fx(-7.0), fx(-8.0)).abs(), v2, "abs (other)");

    assert_eq!(
        Vec2R::new(fx(8.7), fx(-5.0)).floor(),
        Vec2R::new(fx(8.0), fx(-5.0)),
        "floor 1"
    );
    assert_eq!(
        Vec2R::new(fx(8.7), fx(-5.1)).floor(),
        Vec2R::new(fx(8.0), fx(-6.0)),
        "floor 2"
    );
    assert_eq!(
        Vec2R::new(fx(8.7), fx(-5.0)).ceil(),
        Vec2R::new(fx(9.0), fx(-5.0)),
        "ceil 1"
    );
    assert_eq!(
        Vec2R::new(fx(8.7), fx(-5.1)).ceil(),
        Vec2R::new(fx(9.0), fx(-5.0)),
        "ceil 2"
    );
}

#[test]
fn test_unit_vec() {
    let tolerance = Real::from_raw(100 * Real::epsilon().raw);
    let unit = Unit3R::normalized(Vec3R::new(fx(10.0), fx(-5.0), fx(0.3)));
    assert!((unit.vec().length() - fx(1.0)).abs() < tolerance);
    for _ in 0..1000 {
        assert!((Unit3R::random().vec().length_squared() - fx(1.0)).abs() < tolerance);
    }
}

#[test]
fn vec3r_test() {
    let v1 = Vec3R::new(fx(2.0), fx(3.0), fx(4.0));
    assert_eq!(v1.x, fx(2.0), "x should be 2.0");
    assert_eq!(v1.y, fx(3.0), "y should be 3.0");
    assert_eq!(v1.z, fx(4.0), "z should be 4.0");
    assert_eq!(v1, Vec3R::new(fx(2.0), fx(3.0), fx(4.0)), "v1 sould be (2.0, 3.0, 4.0)");
    assert_eq!(
        v1 * fx(2.0),
        Vec3R::new(fx(4.0), fx(6.0), fx(8.0)),
        "v1 (left) should be scaled up"
    );
    assert_eq!(
        fx(2.0) * v1,
        Vec3R::new(fx(4.0), fx(6.0), fx(8.0)),
        "v1 (right) should be scaled up"
    );
    assert_eq!(
        v1 / fx(2.0),
        Vec3R::new(fx(1.0), fx(1.5), fx(2.0)),
        "v1 should be scaled down"
    );
    let v2 = Vec3R::new(fx(5.0), fx(1.0), fx(8.0));
    assert_ne!(v1, v2, "v1 souldn't be equal to v2");
    assert_eq!(v1 + v2, Vec3R::new(fx(7.0), fx(4.0), fx(12.0)), "v1 + v2");
    assert_eq!(v1 - v2, Vec3R::new(fx(-3.0), fx(2.0), fx(-4.0)), "v1 - v2");
    assert_eq!(v1 * v2, Vec3R::new(fx(10.0), fx(3.0), fx(32.0)), "v1 * v2");
    assert_eq!(v1 / v2, Vec3R::new(fx(0.4), fx(3.0), fx(0.5)), "v1 / v2");

    assert_eq!(v1.dot(&v2), fx(45.0), "v1.dot(v2)");

    assert_eq!(v1.length_squared(), fx(29.0), "length squared");
    assert_eq!(
        Vec3R::new(fx(3.0), fx(2.0), fx(6.0)).length(),
        fx(7.0),
        "length of (3, 2, 6)"
    );

    assert_eq!(
        Vec3R::new(fx(1.0), fx(0.0), fx(0.0)).cross(&Vec3R::new(fx(0.0), fx(1.0), fx(0.0))),
        Vec3R::new(fx(0.0), fx(0.0), fx(1.0)),
        "v1.cross(v2)"
    );

    let delta = Vec3R::new(fx(3.0), fx(1.0), fx(2.0)).normalize()
        - Vec3R::new(fx(0.802), fx(0.267), fx(0.534));
    assert!(delta.min_component() < fx(0.001), "normalize");

    assert_eq!(
        Vec3R::new(fx(5.0), fx(7.0), fx(9.0)).min(&Vec3R::new(fx(6.0), fx(2.0), fx(1.0))),
        Vec3R::new(fx(5.0), fx(2.0), fx(1.0)),
        "min between vecs"
    );
    assert_eq!(
        Vec3R::new(fx(5.0), fx(7.0), fx(9.0)).max(&Vec3R::new(fx(6.0), fx(2.0), fx(1.0))),
        Vec3R::new(fx(6.0), fx(7.0), fx(9.0)),
        "max between vecs"
    );

    assert_eq!(
        Vec3R::new(fx(5.0), fx(7.0), fx(9.0)).max_component(),
        fx(9.0),
        "max component"
    );
    assert_eq!(
        Vec3R::new(fx(5.0), fx(7.0), fx(9.0)).min_component(),
        fx(5.0),
        "min component"
    );

    assert_eq!(
        Vec3R::new(fx(3.0), fx(5.0), fx(7.0)).permute(Vec3R::Y, Vec3R::Z, Vec3R::X),
        Vec3R::new(fx(5.0), fx(7.0), fx(3.0)),
        "permute"
    );

    let v1 = Vec3R::new(fx(8.0), fx(-5.0), fx(0.0));
    let v2 = Vec3R::new(fx(2.0), fx(3.0), fx(1.0));

    assert!((v1.distance(&v2) - fx(10.05)).abs() < fx(0.01), "distance epsilon");
    assert_eq!(v1.distance_squared(&v2), fx(101.0), "distance squared");

    assert_eq!(v2.abs(), v2, "abs (self)");
    assert_eq!(Vec3R::new(fx(-2.0), fx(-3.0), fx(-1.0)).abs(), v2, "abs (other)");

    assert_eq!(
        Vec3R::new(fx(8.7), fx(-5.1), fx(2.0)).floor(),
        Vec3R::new(fx(8.0), fx(-6.0), fx(2.0)),
        "floor"
    );
    assert_eq!(
        Vec3R::new(fx(8.7), fx(-5.1), fx(2.0)).ceil(),
        Vec3R::new(fx(9.0), fx(-5.0), fx(2.0)),
        "ceil"
    );
}

#[test]
fn ray_test() {
    let ray = Ray::new(
        Point3R::new(fx(1.0), fx(7.0), fx(9.0)),
        Vec3R::new(fx(2.0), fx(3.0), fx(4.0)).unit(),
    );
    assert_eq!(
        ray.at(fx(2.0)),
        ray.origin + *ray.direction.vec() * fx(2.0),
        "position at 2"
    );
}

#[test]
fn operators_in_place_and_by_index() {
    let mut v = Vec3R::new(fx(1.0), fx(2.0), fx(3.0));
    v += Vec3R::new(fx(1.0), fx(1.0), fx(1.0));
    assert_eq!(v, Vec3R::new(fx(2.0), fx(3.0), fx(4.0)));
    v -= Vec3R::new(fx(2.0), fx(2.0), fx(2.0));
    assert_eq!(v, Vec3R::new(fx(0.0), fx(1.0), fx(2.0)));
    v *= Vec3R::new(fx(2.0), fx(3.0), fx(4.0));
    assert_eq!(v, Vec3R::new(fx(0.0), fx(3.0), fx(8.0)));
    v /= Vec3R::new(fx(1.0), fx(3.0), fx(4.0));
    assert_eq!(v, Vec3R::new(fx(0.0), fx(1.0), fx(2.0)));
    v *= fx(3.0);
    assert_eq!(v, Vec3R::new(fx(0.0), fx(3.0), fx(6.0)));
    v /= fx(2.0);
    assert_eq!(v, Vec3R::new(fx(0.0), fx(1.5), fx(3.0)));
    assert_eq!(-v, Vec3R::new(fx(0.0), fx(-1.5), fx(-3.0)));
    assert_eq!(v[Vec3R::X], fx(0.0));
    assert_eq!(v[Vec3R::Y], fx(1.5));
    assert_eq!(v[Vec3R::Z], fx(3.0));
    assert_eq!(v[7], fx(3.0));
    assert_eq!(v.component(1), fx(1.5));
    let mut w = Vec2R::new(fx(1.0), fx(2.0));
    w += Vec2R::new(fx(1.0), fx(1.0));
    w -= Vec2R::new(fx(0.5), fx(0.5));
    w *= Vec2R::new(fx(2.0), fx(2.0));
    w /= Vec2R::new(fx(3.0), fx(1.0));
    w *= fx(2.0);
    w /= fx(4.0);
    assert_eq!(w, Vec2R::new(fx(0.5), fx(2.5)));
    assert_eq!(-w, Vec2R::new(fx(-0.5), fx(-2.5)));
    assert_eq!(w[Vec2R::X], fx(0.5));
    assert_eq!(w[Vec2R::Y], fx(2.5));
    assert_eq!(w[9], fx(2.5));
    assert_eq!(w.with_z(fx(7.0)), Vec3R::new(fx(0.5), fx(2.5), fx(7.0)));
    assert_eq!(Vec2R::default(), Vec2R::new(fx(0.0), fx(0.0)));
    assert_eq!(Vec3R::default(), Vec3R::new(fx(0.0), fx(0.0), fx(0.0)));
    assert_eq!(Vec2R::from(v), Vec2R::new(fx(0.0), fx(1.5)));
    assert_eq!(Vec3R::from(w), Vec3R::new(fx(0.5), fx(2.5), fx(0.0)));
    assert_eq!(
        Vec3R::new(fx(1.0), fx(2.0), fx(3.0)).lerp(&Vec3R::new(fx(3.0), fx(4.0), fx(5.0)), fx(0.5)),
        Vec3R::new(fx(2.0), fx(3.0), fx(4.0))
    );
    assert_eq!(
        Vec2R::new(fx(1.0), fx(2.0)).lerp(&Vec2R::new(fx(3.0), fx(4.0)), fx(0.0)),
        Vec2R::new(fx(1.0), fx(2.0))
    );
}

#[test]
fn normalizing_keeps_short_vectors_exact() {
    for scale in [1.0e-9, 1.0e-6, 1.0e-3, 1.0, 1.0e3, 1.0e6] {
        for (x, y, z) in [(3.0, -4.0, 12.0), (1.0, 1.0, 1.0), (-0.3, 0.0, 0.1), (0.0, 0.0, -7.0)] {
            let v = Vec3R::new(fx(x * scale), fx(y * scale), fx(z * scale));
            if v.is_zero() {
                continue;
            }
            let n = v.normalize();
            let off = n.length_squared().raw - fx(1.0).raw;
            assert!(off <= 0 && off >= -9, "{} {} {} at {}", x, y, z, scale);
            assert!((Unit3R::normalized(v).vec().length_squared().raw - fx(1.0).raw).abs() <= 100);
        }
    }
    let zero = Vec3R::new(fx(0.0), fx(0.0), fx(0.0));
    assert!(zero.is_zero());
    assert_eq!(zero.normalize(), zero);
    let least = Vec3R::new(Real::from_raw(1), Real::from_raw(0), Real::from_raw(-1));
    assert_eq!(
        least.normalize(),
        Vec3R::new(Real::from_raw(3037000499), Real::from_raw(0), Real::from_raw(-3037000499))
    );
    let most = Vec3R::new(Real::from_raw(i64::MIN), Real::from_raw(i64::MAX), Real::from_raw(0));
    let off = most.normalize().length_squared().raw - fx(1.0).raw;
    assert!(off <= 0 && off >= -9);
}
