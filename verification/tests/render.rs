use pathtrace::geometry::GeometryType;
use pathtrace::geometry::Sphere;
use pathtrace::material::DesMaterial;
use pathtrace::material::Diffuse;
use pathtrace::primitives::Ray;
use pathtrace::primitives::Vec2R;
use pathtrace::primitives::Vec3R;
use pathtrace::renderer::render;
use pathtrace::renderer::render::background_color;
use pathtrace::renderer::render::bounce_ray;
use pathtrace::renderer::render::debug_surfaces;
use pathtrace::renderer::render::debug_surfaces_bounce_ray;
use pathtrace::renderer::render::pixel_ray;
use pathtrace::renderer::render::ray_color;
use pathtrace::renderer::render::sample_pixel;
use pathtrace::renderer::renderer_buffer::to_channel;
use pathtrace::renderer::renderer_buffer::RendererBuffer;
use pathtrace::renderer::PartitionedBuffer;
use pathtrace::renderer::PixelBuffer;
use pathtrace::scalar::Real;
use pathtrace::scene::DesCamera;
use pathtrace::scene::DesScene;
use pathtrace::scene::ObjectEntry;
use pathtrace::scene::Scene;

/// The fixed-point number nearest to `x`.
fn rx(x: f64) -> Real {
    Real::from_raw((x * 4294967296.0).round() as i64)
}

/// The vector nearest to `(x, y, z)`.
fn r3(x: f64, y: f64, z: f64) -> Vec3R {
    Vec3R::new(rx(x), rx(y), rx(z))
}

/// A scene of sixteen by sixteen pixels with one matt ball on the axis of
/// the camera.
fn one_ball(max_bounces: u8, debug_surfaces: bool) -> Scene {
    let description = DesScene {
        materials: vec![("matt".to_string(), DesMaterial::Diffuse(Diffuse::new(r3(0.5, 0.5, 0.5))))],
        geometries: vec![(
            "ball".to_string(),
            GeometryType::Sphere(Sphere::new(r3(0.0, 0.0, 3.0), rx(1.0))),
        )],
        objects: vec![ObjectEntry { geometry: "ball".to_string(), material: "matt".to_string() }],
        camera: DesCamera {
            origin: r3(0.0, 0.0, 0.0),
            rotation: Vec2R::new(rx(0.0), rx(0.0)),
            fov: rx(90.0),
        },
        width: 16,
        height: 16,
        max_bounces,
        debug_surfaces,
        debug_error: None,
    };
    match Scene::try_from(description) {
        Ok(scene) => scene,
        Err(error) => panic!("no scene: {}", error.message()),
    }
}

#[test]
fn the_background_is_a_gradient() {
    let up = Ray::new(r3(0.0, 0.0, 0.0), r3(0.0, 1.0, 0.0).unit());
    assert_eq!(
        background_color(&up),
        Vec3R::new(Real::from_ratio(3, 10), rx(0.5), rx(1.0))
    );
    let down = Ray::new(r3(0.0, 0.0, 0.0), r3(0.0, -1.0, 0.0).unit());
    assert_eq!(background_color(&down), r3(1.0, 1.0, 1.0));
    let level = Ray::with_color(r3(0.0, 0.0, 0.0), r3(1.0, 0.0, 0.0).unit(), r3(0.5, 0.5, 0.5));
    let seen = background_color(&level);
    assert!((seen.x.raw - rx(0.325).raw).abs() < 8);
    assert!((seen.y.raw - rx(0.375).raw).abs() < 8);
    assert_eq!(seen.z, rx(0.5));
}

#[test]
fn beyond_the_depth_no_light_comes_back() {
    let scene = one_ball(1, false);
    let at_ball = Ray::new(r3(0.0, 0.0, 0.0), r3(0.0, 0.0, 1.0).unit());
    let past_ball = Ray::new(r3(0.0, 0.0, 0.0), r3(0.0, 1.0, 0.0).unit());
    assert_eq!(ray_color(&at_ball, &scene, 2), r3(0.0, 0.0, 0.0));
    assert_eq!(ray_color(&past_ball, &scene, 2), r3(0.0, 0.0, 0.0));
    assert_eq!(ray_color(&past_ball, &scene, usize::MAX), r3(0.0, 0.0, 0.0));
    assert_eq!(ray_color(&at_ball, &scene, 1), r3(0.0, 0.0, 0.0));
}

#[test]
fn a_ray_that_meets_nothing_sees_the_background() {
    let scene = one_ball(3, false);
    let past_ball = Ray::with_color(
        r3(0.0, 0.0, 0.0),
        r3(0.3, 0.8, -0.2).unit(),
        r3(0.9, 0.5, 0.1),
    );
    assert!(bounce_ray(&past_ball, &scene).is_none());
    assert_eq!(ray_color(&past_ball, &scene, 1), background_color(&past_ball));
    assert_eq!(ray_color(&past_ball, &scene, 3), background_color(&past_ball));
    let at_ball = Ray::new(r3(0.0, 0.0, 0.0), r3(0.0, 0.0, 1.0).unit());
    let bounced = bounce_ray(&at_ball, &scene).unwrap();
    assert_eq!(bounced.origin, r3(0.0, 0.0, 2.0));
    assert_eq!(bounced.color, r3(0.5, 0.5, 0.5));
    let shaded = ray_color(&at_ball, &scene, 1);
    assert!(shaded.max_component() <= rx(0.5));
    assert!(shaded.min_component() >= rx(0.0));
}

#[test]
fn the_nearest_object_wins() {
    let description = DesScene {
        materials: vec![
            ("dark".to_string(), DesMaterial::Diffuse(Diffuse::new(r3(0.25, 0.25, 0.25)))),
            ("light".to_string(), DesMaterial::Diffuse(Diffuse::new(r3(0.75, 0.75, 0.75)))),
        ],
        geometries: vec![
            ("far".to_string(), GeometryType::Sphere(Sphere::new(r3(0.0, 0.0, 9.0), rx(1.0)))),
            ("near".to_string(), GeometryType::Sphere(Sphere::new(r3(0.0, 0.0, 4.0), rx(1.0)))),
        ],
        objects: vec![
            ObjectEntry { geometry: "far".to_string(), material: "dark".to_string() },
            ObjectEntry { geometry: "near".to_string(), material: "light".to_string() },
            ObjectEntry { geometry: "far".to_string(), material: "dark".to_string() },
        ],
        camera: DesCamera {
            origin: r3(0.0, 0.0, 0.0),
            rotation: Vec2R::new(rx(0.0), rx(0.0)),
            fov: rx(90.0),
        },
        width: 16,
        height: 16,
        max_bounces: 2,
        debug_surfaces: false,
        debug_error: None,
    };
    let scene = match Scene::try_from(description) {
        Ok(scene) => scene,
        Err(error) => panic!("no scene: {}", error.message()),
    };
    let ray = Ray::new(r3(0.0, 0.0, 0.0), r3(0.0, 0.0, 1.0).unit());
    let bounced = bounce_ray(&ray, &scene).unwrap();
    assert_eq!(bounced.origin, r3(0.0, 0.0, 3.0));
    assert_eq!(bounced.color, r3(0.75, 0.75, 0.75));
}

#[test]
fn surfaces_are_marked_by_their_side() {
    let scene = one_ball(1, true);
    let at_ball = Ray::new(r3(0.0, 0.0, 0.0), r3(0.0, 0.0, 1.0).unit());
    let marked = debug_surfaces_bounce_ray(&at_ball, &scene).unwrap();
    assert_eq!(marked.color, r3(0.0, 0.0, 1.0));
    assert_eq!(marked.origin, r3(0.0, 0.0, 2.0));
    assert_eq!(debug_surfaces(&at_ball, &scene, 1), r3(0.0, 0.0, 1.0));
    let from_inside = Ray::new(r3(0.0, 0.0, 3.0), r3(0.0, 0.0, 1.0).unit());
    assert_eq!(debug_surfaces(&from_inside, &scene, 1), r3(1.0, 0.0, 0.0));
    let past_ball = Ray::new(r3(0.0, 0.0, 0.0), r3(0.0, 1.0, 0.0).unit());
    assert!(debug_surfaces_bounce_ray(&past_ball, &scene).is_none());
    assert_eq!(debug_surfaces(&past_ball, &scene, 1), r3(0.0, 0.0, 0.0));
    let carried = Ray::with_color(r3(0.0, 0.0, 0.0), r3(0.0, 1.0, 0.0).unit(), r3(0.2, 0.4, 0.6));
    assert_eq!(debug_surfaces(&carried, &scene, 2), r3(0.2, 0.4, 0.6));
    let sample = sample_pixel(&scene, 8, 8);
    assert_eq!(sample, (rx(0.0), rx(0.0), rx(1.0)));
}

#[test]
fn one_ball_before_the_background() {
    let scene = one_ball(1, false);
    let mut buffer = PixelBuffer::new(16, 16);
    for _ in 0..4 {
        render(&scene, &mut buffer);
    }
    assert_eq!(buffer.samples_count(), 4);
    let centre = buffer.sum_at(8, 8);
    assert_eq!(centre, (rx(0.0), rx(0.0), rx(0.0)));
    let corner = buffer.sum_at(0, 0);
    assert_ne!(corner, centre);
    assert!(corner.0 > rx(0.0) && corner.1 > rx(0.0) && corner.2 > rx(0.0));
    for (jitter_x, jitter_y) in [(0.0, 0.0), (0.5, 0.25), (0.99, 0.99)] {
        let ray = pixel_ray(&scene, 0, 0, rx(jitter_x), rx(jitter_y));
        assert!(bounce_ray(&ray, &scene).is_none());
        assert_eq!(ray_color(&ray, &scene, 1), background_color(&ray));
        let through_centre = pixel_ray(&scene, 8, 8, rx(jitter_x), rx(jitter_y));
        assert_eq!(ray_color(&through_centre, &scene, 1), r3(0.0, 0.0, 0.0));
    }
    let picture = buffer.to_img();
    let at = (8 * 16 + 8) * 4;
    assert_eq!(picture[at..at + 4], [0, 0, 0, 255]);
    assert_eq!(picture[0], to_channel(corner.0 / Real::from_int(4)));
    assert_eq!(picture[3], 255);
    let sample = sample_pixel(&scene, 0, 15);
    assert!(sample.2 > rx(0.0));
}

#[test]
fn the_scene_renders_into_either_buffer() {
    let scene = one_ball(2, false);
    let mut plain = scene.new_pixel_buffer();
    scene.render(&mut plain);
    assert_eq!(plain.samples_count(), 1);
    let mut tiled = PartitionedBuffer::new(16, 16);
    for pass in 1..=3 {
        scene.render(&mut tiled);
        assert_eq!(tiled.partition(0).samples_count, pass);
    }
    let picture = tiled.to_img();
    assert_eq!(picture.len(), 16 * 16 * 4);
    assert!(picture[0] > 0);
    assert_eq!(picture[3], 255);
}

#[test]
fn no_more_light_comes_back_than_goes_out() {
    let scene = one_ball(6, false);
    for row in 0..16 {
        for col in 0..16 {
            let sample = sample_pixel(&scene, row, col);
            for channel in [sample.0, sample.1, sample.2] {
                assert!(channel >= rx(0.0) && channel <= rx(1.0));
            }
        }
    }
    let carried = r3(0.5, 0.25, 0.125);
    for _ in 0..50 {
        let ray = Ray::with_color(r3(0.0, 0.0, 0.0), r3(0.1, 0.05, 1.0).unit(), carried);
        let seen = ray_color(&ray, &scene, 1);
        assert!(seen.x >= rx(0.0) && seen.x <= carried.x);
        assert!(seen.y >= rx(0.0) && seen.y <= carried.y);
        assert!(seen.z >= rx(0.0) && seen.z <= carried.z);
    }
}
