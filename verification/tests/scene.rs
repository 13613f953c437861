use pathtrace::geometry::Cube;
use pathtrace::geometry::GeometryType;
use pathtrace::geometry::Sphere;
use pathtrace::material::DesMaterial;
use pathtrace::material::Diffuse;
use pathtrace::material::Metal;
use pathtrace::primitives::Vec2R;
use pathtrace::primitives::Vec3R;
use pathtrace::renderer::renderer_buffer::RendererBuffer;
use pathtrace::scalar::Real;
use pathtrace::scene::DesCamera;
use pathtrace::scene::DesScene;
use pathtrace::scene::ObjectEntry;
use pathtrace::scene::Scene;
use pathtrace::scene::SceneError;

/// The fixed-point number nearest to `x`.
fn cx(x: f64) -> Real {
    Real::from_raw((x * 4294967296.0).round() as i64)
}

/// The vector nearest to `(x, y, z)`.
fn c3(x: f64, y: f64, z: f64) -> Vec3R {
    Vec3R::new(cx(x), cx(y), cx(z))
}

/// An object of the shape `geometry` and the material `material`.
fn object(geometry: &str, material: &str) -> ObjectEntry<String> {
    ObjectEntry { geometry: geometry.to_string(), material: material.to_string() }
}

/// A description with two materials, two shapes and the objects `objects`.
fn described(objects: Vec<ObjectEntry<String>>) -> DesScene {
    DesScene {
        materials: vec![
            ("matt".to_string(), DesMaterial::Diffuse(Diffuse::new(c3(0.5, 0.5, 0.5)))),
            ("mirror".to_string(), DesMaterial::Metal(Metal::new(c3(0.9, 0.9, 0.9), cx(0.0)))),
        ],
        geometries: vec![
            ("ball".to_string(), GeometryType::Sphere(Sphere::new(c3(0.0, 0.0, 3.0), cx(1.0)))),
            (
                "box".to_string(),
                GeometryType::Cube(Cube::new(c3(0.0, 0.0, 1.0), Vec2R::new(cx(1.0), cx(1.0)))),
            ),
        ],
        objects,
        camera: DesCamera {
            origin: c3(0.0, 0.0, 0.0),
            rotation: Vec2R::new(cx(0.0), cx(0.0)),
            fov: cx(90.0),
        },
        width: 32,
        height: 16,
        max_bounces: 4,
        debug_surfaces: false,
        debug_error: None,
    }
}

#[test]
fn a_scene_resolves_its_names() {
    let scene = Scene::try_from(described(vec![
        object("box", "mirror"),
        object("ball", "matt"),
        object("ball", "mirror"),
    ]));
    let scene = match scene {
        Ok(scene) => scene,
        Err(error) => panic!("no scene: {}", error.message()),
    };
    assert_eq!(scene.width(), 32);
    assert_eq!(scene.height(), 16);
    assert_eq!(scene.max_bounces(), 4);
    assert_eq!(scene.max_bounces, 4);
    assert!(!scene.debug_surfaces());
    assert!(!scene.debug_error);
    assert_eq!(scene.ratio(), cx(2.0));
    assert_eq!(scene.objects_count(), 3);
    let mut objects = scene.objects_iter();
    let first = objects.next().unwrap();
    assert!(matches!(first.geometry, GeometryType::Cube(_)));
    assert!(matches!(first.material, DesMaterial::Metal(_)));
    let second = objects.next().unwrap();
    assert!(matches!(second.geometry, GeometryType::Sphere(_)));
    assert!(matches!(second.material, DesMaterial::Diffuse(_)));
    let third = objects.next().unwrap();
    assert!(matches!(third.geometry, GeometryType::Sphere(_)));
    assert!(matches!(third.material, DesMaterial::Metal(_)));
    assert!(objects.next().is_none());
    assert!(objects.next().is_none());
    let mut again = scene.objects_iter();
    assert!(matches!(again.next().unwrap().geometry, GeometryType::Cube(_)));
}

#[test]
fn a_missing_material_gives_no_scene() {
    let result = Scene::try_from(described(vec![object("ball", "matt"), object("ball", "gold")]));
    match result {
        Err(SceneError::DescriptorError(message)) => {
            assert_eq!(message, "cannot find material 'gold' for object");
        }
        Err(SceneError::ParseError(message)) => panic!("a parse error: {}", message),
        Ok(_) => panic!("a scene"),
    }
}

#[test]
fn a_missing_geometry_gives_no_scene() {
    let result = Scene::try_from(described(vec![object("cone", "matt")]));
    match result {
        Err(error) => {
            assert!(matches!(error, SceneError::DescriptorError(_)));
            assert_eq!(error.message(), "cannot find geometry 'cone' for object");
        }
        Ok(_) => panic!("a scene"),
    }
}

#[test]
fn the_material_is_looked_up_first() {
    let result = Scene::try_from(described(vec![object("cone", "gold")]));
    match result {
        Err(error) => assert_eq!(error.message(), "cannot find material 'gold' for object"),
        Ok(_) => panic!("a scene"),
    }
}

#[test]
fn the_last_of_two_equal_names_counts() {
    let mut description = described(vec![object("ball", "matt")]);
    description
        .materials
        .push(("matt".to_string(), DesMaterial::Metal(Metal::new(c3(1.0, 1.0, 1.0), cx(0.0)))));
    let scene = match Scene::try_from(description) {
        Ok(scene) => scene,
        Err(error) => panic!("no scene: {}", error.message()),
    };
    let mut objects = scene.objects_iter();
    assert!(matches!(objects.next().unwrap().material, DesMaterial::Metal(_)));
}

#[test]
fn an_empty_scene_has_no_objects() {
    let scene = match Scene::try_from(described(Vec::new())) {
        Ok(scene) => scene,
        Err(error) => panic!("no scene: {}", error.message()),
    };
    assert_eq!(scene.objects_count(), 0);
    assert!(scene.objects_iter().next().is_none());
    let buffer = scene.new_pixel_buffer();
    assert_eq!(buffer.width(), 32);
    assert_eq!(buffer.height(), 16);
    assert_eq!(buffer.to_img().len(), 32 * 16 * 4);
}

#[test]
fn flags_of_the_description_carry_over() {
    let mut description = described(Vec::new());
    description.debug_surfaces = true;
    description.debug_error = Some(true);
    description.max_bounces = 0;
    let scene = match Scene::try_from(description) {
        Ok(scene) => scene,
        Err(error) => panic!("no scene: {}", error.message()),
    };
    assert!(scene.debug_surfaces);
    assert!(scene.debug_error);
    assert_eq!(scene.max_bounces, 0);
}
