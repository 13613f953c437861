use pathtrace::geometry::Cube;
use pathtrace::geometry::Geometry;
use pathtrace::geometry::GeometryType;
use pathtrace::geometry::Line;
use pathtrace::geometry::Sphere;
use pathtrace::material::DesMaterial;
use pathtrace::material::Dieletric;
use pathtrace::material::Diffuse;
use pathtrace::material::Material;
use pathtrace::material::Metal;
use pathtrace::primitives::Hit;
use pathtrace::primitives::Ray;
use pathtrace::primitives::Unit3R;
use pathtrace::primitives::Vec2R;
use pathtrace::primitives::Vec3R;
use pathtrace::random::random_fraction;
use pathtrace::scalar::Real;
use pathtrace::scalar::ONE_RAW;

/// The fixed-point number nearest to `x`.
fn mx(x: f64) -> Real {
    Real::from_raw((x * 4294967296.0).round() as i64)
}

/// The vector nearest to `(x, y, z)`.
fn v3(x: f64, y: f64, z: f64) -> Vec3R {
    Vec3R::new(mx(x), mx(y), mx(z))
}

/// How far the squared length of `v` is from one, in units.
fn off_unit(v: &Vec3R) -> i64 {
    (v.length_squared().raw - ONE_RAW).abs()
}

/// A hit at the origin of a surface that faces up.
fn floor_hit() -> Hit {
    Hit { point: v3(0.0, 0.0, 0.0), normal: v3(0.0, 1.0, 0.0).unit(), is_front_face: true }
}

#[test]
fn roots_outside_the_bounds_are_rejected() {
    let sphere = Sphere::new(v3(0.0, 0.0, 5.0), mx(1.0));
    let ray = Ray::new(v3(0.0, 0.0, 0.0), v3(0.0, 0.0, 1.0).unit());
    assert_eq!(sphere.intersect(&ray, mx(0.0), Real::infinity()), mx(4.0));
    assert_eq!(sphere.intersect(&ray, mx(4.0), Real::infinity()), mx(6.0));
    assert_eq!(sphere.intersect(&ray, mx(4.5), mx(5.5)), Real::infinity());
    assert_eq!(sphere.intersect(&ray, mx(0.0), mx(4.0)), Real::infinity());
    assert_eq!(sphere.intersect(&ray, mx(6.0), Real::infinity()), Real::infinity());
}

#[test]
fn a_ray_that_misses_meets_nothing() {
    let sphere = Sphere::new(v3(0.0, 3.0, 5.0), mx(1.0));
    let ray = Ray::new(v3(0.0, 0.0, 0.0), v3(0.0, 0.0, 1.0).unit());
    assert_eq!(sphere.intersect(&ray, mx(0.0), Real::infinity()), Real::infinity());
}

#[test]
fn a_ray_from_inside_meets_the_far_side() {
    let sphere = Sphere::new(v3(0.0, 0.0, 0.0), mx(2.0));
    let ray = Ray::new(v3(0.0, 0.0, 0.0), v3(0.0, 0.0, 1.0).unit());
    assert_eq!(sphere.intersect(&ray, mx(0.0), Real::infinity()), mx(2.0));
}

#[test]
fn the_normal_faces_the_ray() {
    let sphere = Sphere::new(v3(0.0, 0.0, 5.0), mx(1.0));
    let ray = Ray::new(v3(0.0, 0.0, 0.0), v3(0.0, 0.0, 1.0).unit());
    let outside = sphere.hit(&ray, mx(4.0));
    assert!(outside.is_front_face);
    assert_eq!(outside.point, v3(0.0, 0.0, 4.0));
    assert_eq!(*outside.normal.vec(), v3(0.0, 0.0, -1.0));
    let inside = sphere.hit(&ray, mx(6.0));
    assert!(!inside.is_front_face);
    assert_eq!(inside.point, v3(0.0, 0.0, 6.0));
    assert_eq!(*inside.normal.vec(), v3(0.0, 0.0, -1.0));
    let slanted = Ray::new(v3(0.3, -0.2, 0.0), v3(0.0, 0.1, 1.0).unit());
    let t = sphere.intersect(&slanted, mx(0.0), Real::infinity());
    let hit = sphere.hit(&slanted, t);
    assert!(hit.is_front_face);
    assert!(off_unit(hit.normal.vec()) <= 100);
    assert!(slanted.direction.vec().dot(hit.normal.vec()).raw <= 0);
}

#[test]
fn boxes_and_segments_are_never_met() {
    let ray = Ray::new(v3(0.0, 0.0, 0.0), v3(0.0, 0.0, 1.0).unit());
    let cube = Cube::new(v3(0.0, 0.0, 1.0), Vec2R::new(mx(1.0), mx(1.0)));
    let line = Line::new(v3(-1.0, 0.0, 1.0), v3(1.0, 0.0, 1.0), mx(0.5));
    assert_eq!(cube.intersect(&ray, mx(0.0), Real::infinity()), Real::infinity());
    assert_eq!(line.intersect(&ray, mx(0.0), Real::infinity()), Real::infinity());
    let hit = cube.hit(&ray, mx(1.0));
    assert_eq!(hit.point, ray.origin);
    assert_eq!(hit.normal, ray.direction);
    assert!(hit.is_front_face);
    let hit = line.hit(&ray, mx(1.0));
    assert_eq!(hit.point, ray.origin);
    assert_eq!(hit.normal, ray.direction);
    assert!(hit.is_front_face);
    let wrapped = GeometryType::Cube(Cube::new(v3(0.0, 0.0, 1.0), Vec2R::new(mx(1.0), mx(1.0))));
    assert_eq!(wrapped.intersect(&ray, mx(0.0), Real::infinity()), Real::infinity());
    let ball = GeometryType::Sphere(Sphere::new(v3(0.0, 0.0, 5.0), mx(1.0)));
    assert_eq!(ball.intersect(&ray, mx(0.0), Real::infinity()), mx(4.0));
}

#[test]
fn random_directions_have_length_one() {
    for _ in 0..1000 {
        let u = Unit3R::random();
        assert!(off_unit(u.vec()) < 100);
        assert_eq!(u.x(), u.vec().x);
        assert_eq!(u.y(), u.vec().y);
        assert_eq!(u.z(), u.vec().z);
    }
    for _ in 0..1000 {
        let draw = random_fraction();
        assert!(draw.raw >= 0 && draw.raw < ONE_RAW);
    }
}

#[test]
fn directions_on_the_sphere() {
    let top = Unit3R::on_sphere(mx(0.0), mx(1.0));
    assert_eq!(*top.vec(), v3(0.0, 0.0, 1.0));
    let side = Unit3R::on_sphere(mx(0.0), mx(0.0));
    assert_eq!(*side.vec(), v3(1.0, 0.0, 0.0));
    assert_eq!(*Unit3R::up().vec(), v3(0.0, 1.0, 0.0));
    assert_eq!(*(-Unit3R::up()).vec(), v3(0.0, -1.0, 0.0));
    assert_eq!(*Unit3R::normalized(v3(0.0, 0.0, 1.0)).vec(), v3(0.0, 0.0, 1.0));
    assert_eq!(*Unit3R::normalized(v3(0.0, 0.0, 2.0)).vec(), v3(0.0, 0.0, 1.0));
    assert_eq!(*Unit3R::from(&v3(0.0, 3.0, 0.0)).vec(), v3(0.0, 1.0, 0.0));
}

#[test]
fn a_matt_surface_dims_the_light() {
    let material = Diffuse::new(v3(0.5, 0.25, 1.0));
    let ray = Ray::with_color(v3(0.0, 1.0, -1.0), v3(0.0, -1.0, 1.0).unit(), v3(0.8, 0.4, 0.2));
    let hit = floor_hit();
    for _ in 0..200 {
        let out = material.bounce(&ray, &hit);
        assert_eq!(out.origin, hit.point);
        assert_eq!(out.color, v3(0.8, 0.4, 0.2) * v3(0.5, 0.25, 1.0));
        assert!(out.color.x <= ray.color.x);
        assert!(out.color.y <= ray.color.y);
        assert!(out.color.z <= ray.color.z);
        assert!(out.color.min_component().raw >= 0);
        assert!(off_unit(out.direction.vec()) < 100);
    }
    let chosen = material.bounce_with(&ray, &hit, v3(1.0, 0.0, 0.0).unit());
    assert_eq!(*chosen.direction.vec(), v3(1.0, 1.0, 0.0).normalize());
}

#[test]
fn a_mirror_reflects_about_the_normal() {
    assert_eq!(Metal::new(v3(1.0, 1.0, 1.0), mx(3.0)).fuzz, mx(1.0));
    assert_eq!(Metal::new(v3(1.0, 1.0, 1.0), mx(0.25)).fuzz, mx(0.25));
    let material = Metal::new(v3(0.5, 0.5, 0.5), mx(0.0));
    let incoming = v3(3.0, -4.0, 0.0).unit();
    let ray = Ray::new(v3(-3.0, 4.0, 0.0), incoming);
    let hit = floor_hit();
    assert_eq!(
        Metal::reflect(&v3(0.0, -1.0, 0.0).unit(), &hit.normal),
        v3(0.0, 1.0, 0.0)
    );
    let first = material.bounce(&ray, &hit);
    let second = material.bounce(&ray, &hit);
    assert_eq!(first.direction, second.direction);
    assert_eq!(first.origin, hit.point);
    assert_eq!(first.color, v3(0.5, 0.5, 0.5));
    let into = incoming.vec().dot(hit.normal.vec());
    let out_of = first.direction.vec().dot(hit.normal.vec());
    assert!((into.raw + out_of.raw).abs() < 16);
    assert!((first.direction.vec().x.raw - incoming.vec().x.raw).abs() < 16);
    assert!(off_unit(first.direction.vec()) < 100);
}

#[test]
fn a_blurred_mirror_scatters_and_absorbs() {
    let material = Metal::new(v3(0.5, 0.5, 0.5), mx(0.5));
    let ray = Ray::new(v3(-3.0, 4.0, 0.0), v3(3.0, -4.0, 0.0).unit());
    let hit = floor_hit();
    let exact = Metal::reflect(&ray.direction, &hit.normal).unit();
    let mut moved = false;
    for _ in 0..100 {
        let out = material.bounce(&ray, &hit);
        assert!(off_unit(out.direction.vec()) < 100);
        if out.direction != exact {
            moved = true;
        }
    }
    assert!(moved);
    let grazing = Ray::new(v3(-1.0, 0.0, 0.0), v3(1.0, 0.0, 0.0).unit());
    let down = material.bounce_with(&grazing, &hit, v3(0.0, -1.0, 0.0).unit());
    assert_eq!(down.color, v3(0.0, 0.0, 0.0));
    let up = material.bounce_with(&grazing, &hit, v3(0.0, 1.0, 0.0).unit());
    assert_eq!(up.color, v3(0.5, 0.5, 0.5));
}

#[test]
fn a_clear_solid_reflects_or_bends() {
    let material = Dieletric::new(v3(1.0, 1.0, 1.0), mx(1.5));
    let hit = floor_hit();
    let straight = Ray::new(v3(0.0, 1.0, 0.0), v3(0.0, -1.0, 0.0).unit());
    let through = material.bounce_with(&straight, &hit, Real::from_raw(ONE_RAW - 1));
    assert_eq!(*through.direction.vec(), v3(0.0, -1.0, 0.0));
    let back = material.bounce_with(&straight, &hit, mx(0.0));
    assert_eq!(*back.direction.vec(), v3(0.0, 1.0, 0.0));
    assert_eq!(
        Dieletric::reflection_probability(mx(1.0), mx(1.5)),
        mx(-0.5) / mx(2.5) * (mx(-0.5) / mx(2.5))
    );
    assert_eq!(Dieletric::reflection_probability(mx(0.0), mx(1.0)), mx(1.0));
    let mut degrees = 0.0;
    while degrees <= 90.0 {
        let angle: f64 = degrees * std::f64::consts::PI / 180.0;
        let ray = Ray::new(v3(0.0, 1.0, 0.0), v3(angle.sin(), -angle.cos(), 0.0).unit());
        for refraction in [0.1, 0.9, 1.0, 1.5, 2.4] {
            let glass = Dieletric::new(v3(0.9, 0.9, 0.9), mx(refraction));
            for front in [true, false] {
                let hit = Hit { is_front_face: front, ..floor_hit() };
                let out = glass.bounce(&ray, &hit);
                assert!(off_unit(out.direction.vec()) < 200);
                assert_eq!(out.color, v3(0.9, 0.9, 0.9));
                assert_eq!(out.origin, hit.point);
            }
        }
        degrees += 2.5;
    }
}

#[test]
fn materials_dispatch_to_what_they_hold() {
    let ray = Ray::new(v3(-3.0, 4.0, 0.0), v3(3.0, -4.0, 0.0).unit());
    let hit = floor_hit();
    let mirror = DesMaterial::Metal(Metal::new(v3(0.5, 0.5, 0.5), mx(0.0)));
    let plain = Metal::new(v3(0.5, 0.5, 0.5), mx(0.0));
    assert_eq!(mirror.bounce(&ray, &hit).direction, plain.bounce(&ray, &hit).direction);
    let matt = DesMaterial::Diffuse(Diffuse::new(v3(0.5, 0.5, 0.5)));
    assert_eq!(matt.bounce(&ray, &hit).color, v3(0.5, 0.5, 0.5));
    let glass = DesMaterial::Dieletric(Dieletric::new(v3(0.25, 0.5, 0.5), mx(1.5)));
    assert_eq!(glass.bounce(&ray, &hit).color, v3(0.25, 0.5, 0.5));
}
