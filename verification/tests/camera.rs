use pathtrace::camera::Camera;
use pathtrace::primitives::Vec2R;
use pathtrace::primitives::Vec3R;
use pathtrace::scalar::Real;
use pathtrace::scalar::PI_RAW;
use pathtrace::scalar::TWO_PI_RAW;

/// The fixed-point number nearest to `x`.
fn kx(x: f64) -> Real {
    Real::from_raw((x * 4294967296.0).round() as i64)
}

/// The vector nearest to `(x, y, z)`.
fn k3(x: f64, y: f64, z: f64) -> Vec3R {
    Vec3R::new(kx(x), kx(y), kx(z))
}

/// Whether `a` and `b` are the same within `units` units in each component.
fn close(a: &Vec3R, b: &Vec3R, units: i64) -> bool {
    (a.x.raw - b.x.raw).abs() <= units
        && (a.y.raw - b.y.raw).abs() <= units
        && (a.z.raw - b.z.raw).abs() <= units
}

#[test]
fn a_new_camera_looks_down_the_axis() {
    let camera = Camera::new(kx(2.0), kx(1.0));
    assert_eq!(camera.origin, k3(0.0, 0.0, 0.0));
    assert_eq!(camera.fov_radians, kx(1.0));
    let centre = camera.ray_at(kx(0.5), kx(0.5));
    assert_eq!(centre.origin, k3(0.0, 0.0, 0.0));
    assert_eq!(*centre.direction.vec(), k3(0.0, 0.0, -1.0));
    assert_eq!(centre.color, k3(1.0, 1.0, 1.0));
    let corner = camera.ray_at(kx(0.0), kx(0.0));
    assert_eq!(*corner.direction.vec(), k3(-2.0, -1.0, -1.0).normalize());
    let other = camera.ray_at(kx(1.0), kx(1.0));
    assert_eq!(*other.direction.vec(), k3(2.0, 1.0, -1.0).normalize());
}

#[test]
fn moving_keeps_the_view() {
    let mut camera = Camera::new(kx(1.0), kx(1.0));
    let before = *camera.ray_at(kx(0.25), kx(0.75)).direction.vec();
    camera.move_up(kx(2.0));
    assert_eq!(camera.origin, k3(0.0, 2.0, 0.0));
    camera.move_down(kx(0.5));
    assert_eq!(camera.origin, k3(0.0, 1.5, 0.0));
    camera.move_right(kx(3.0));
    assert_eq!(camera.origin, k3(3.0, 1.5, 0.0));
    camera.move_left(kx(1.0));
    assert_eq!(camera.origin, k3(2.0, 1.5, 0.0));
    camera.move_backward(kx(1.0));
    assert_eq!(camera.origin, k3(2.0, 2.5, 0.0));
    camera.move_forward(kx(0.5));
    assert_eq!(camera.origin, k3(2.0, 2.0, 0.0));
    let after = camera.ray_at(kx(0.25), kx(0.75));
    assert_eq!(after.origin, k3(2.0, 2.0, 0.0));
    assert_eq!(*after.direction.vec(), before);
    camera.set_origin(k3(1.0, 1.0, 1.0));
    assert_eq!(camera.origin, k3(1.0, 1.0, 1.0));
}

#[test]
fn turning_sets_the_viewport_up_again() {
    let mut camera = Camera::new(kx(2.0), Real::from_raw(PI_RAW / 2));
    camera.rotate(Vec2R::new(kx(0.0), kx(0.0)));
    let centre = camera.ray_at(kx(0.5), kx(0.5));
    assert!(close(centre.direction.vec(), &k3(0.0, 0.0, 1.0), 64));
    let corner = camera.ray_at(kx(0.0), kx(0.0));
    assert!(close(corner.direction.vec(), &k3(2.0, -1.0, 1.0).normalize(), 64));
    camera.set_aspect_ratio(100, 100);
    camera.update_viewport();
    let corner = camera.ray_at(kx(0.0), kx(0.0));
    assert!(close(corner.direction.vec(), &k3(1.0, -1.0, 1.0).normalize(), 64));
    let mut turned = Camera::new(kx(1.0), Real::from_raw(PI_RAW / 2));
    turned.rotate(Vec2R::new(kx(0.0), Real::from_raw(PI_RAW / 2)));
    let ahead = turned.ray_at(kx(0.5), kx(0.5));
    assert!(close(ahead.direction.vec(), &k3(-1.0, 0.0, 0.0), 64));
    let mut full = Camera::new(kx(1.0), Real::from_raw(PI_RAW / 2));
    full.rotate(Vec2R::new(Real::from_raw(TWO_PI_RAW), Real::from_raw(-TWO_PI_RAW)));
    let same = full.ray_at(kx(0.5), kx(0.5));
    assert!(close(same.direction.vec(), &k3(0.0, 0.0, 1.0), 64));
}

#[test]
fn angles_are_kept_within_one_turn() {
    assert_eq!(Camera::clamp_angle(kx(1.0)), kx(1.0));
    assert_eq!(Camera::clamp_angle(Real::from_raw(TWO_PI_RAW)), kx(0.0));
    assert_eq!(Camera::clamp_angle(Real::from_raw(TWO_PI_RAW + 7)), Real::from_raw(7));
    assert_eq!(Camera::clamp_angle(Real::from_raw(-7)), Real::from_raw(TWO_PI_RAW - 7));
    assert_eq!(Camera::clamp_angle(kx(0.0)), kx(0.0));
}

#[test]
fn looking_at_a_target() {
    let mut camera = Camera::new(kx(1.0), Real::from_raw(PI_RAW / 2));
    camera.look_at(k3(0.0, 0.0, -5.0));
    let centre = camera.ray_at(kx(0.5), kx(0.5));
    assert!(close(centre.direction.vec(), &k3(0.0, 0.0, 1.0), 64));
    let copy = camera.clone();
    assert_eq!(copy.origin, camera.origin);
    assert_eq!(
        *copy.ray_at(kx(0.1), kx(0.9)).direction.vec(),
        *camera.ray_at(kx(0.1), kx(0.9)).direction.vec()
    );
}
