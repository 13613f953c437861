use pathtrace::geometry::Geometry;
use pathtrace::geometry::Sphere;
use pathtrace::primitives::Point3R;
use pathtrace::primitives::Ray;
use pathtrace::primitives::Vec3R;
use pathtrace::scalar::Real;

/// The fixed-point number nearest to `x`.
fn gx(x: f64) -> Real {
    Real::from_raw((x * 4294967296.0).round() as i64)
}

#[test]
fn test_intersection() {
    let sphere_1 = Sphere::new(Point3R::new(gx(0.0), gx(0.0), gx(2.0)), gx(1.0));
    let sphere_2 = Sphere::new(Point3R::new(gx(0.0), gx(0.0), gx(5.0)), gx(1.0));
    let sphere_3 = Sphere::new(Point3R::new(gx(0.0), gx(0.0), gx(-5.0)), gx(1.0));
    let ray = Ray::new(
        Point3R::new(gx(0.0), gx(0.0), gx(-1.0)),
        Vec3R::new(gx(0.0), gx(0.0), gx(1.0)).unit(),
    );
    let t1 = sphere_1.intersect(&ray, gx(0.0), Real::infinity());
    let t2 = sphere_2.intersect(&ray, gx(0.0), Real::infinity());
    let t3 = sphere_3.intersect(&ray, gx(0.0), Real::infinity());
    assert_eq!(t1, gx(2.0));
    assert_eq!(t2, gx(5.0));
    assert_eq!(t3, Real::infinity());
}
