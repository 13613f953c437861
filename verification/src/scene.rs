//! Scenes: the shapes, the materials, the objects made of them and the
//! camera, built from a description that names them.
use vstd::prelude::*;
use crate::scalar::Real;
use crate::primitives::Vec2R;
use crate::primitives::Vec3R;
use crate::geometry::GeometryType;
use crate::material::DesMaterial;
use crate::object::Object;
use crate::camera::Camera;
use crate::camera::CameraView;
use crate::renderer::PixelBuffer;
use crate::renderer::pixel_buffer::fits_picture;
use crate::renderer::renderer_buffer::RendererBuffer;
use crate::renderer::renderer_buffer::RgbReal;
use crate::renderer::renderer_buffer::dark;

verus! {

/// An object as a pair of references: to its shape and to its material.
#[derive(Debug)]
pub struct ObjectEntry<T> {
    pub geometry: T,
    pub material: T,
}

/// The description of a camera.
#[derive(Debug)]
pub struct DesCamera {
    pub origin: Vec3R,
    /// The two angles of the camera, in radians.
    pub rotation: Vec2R,
    /// The field of view, in degrees.
    pub fov: Real,
}

/// The description of a scene: shapes and materials under their names, and
/// objects that refer to both by name.
#[derive(Debug)]
pub struct DesScene {
    pub materials: Vec<(String, DesMaterial)>,
    pub geometries: Vec<(String, GeometryType)>,
    pub objects: Vec<ObjectEntry<String>>,
    pub camera: DesCamera,
    pub width: u16,
    pub height: u16,
    pub max_bounces: u8,
    pub debug_surfaces: bool,
    pub debug_error: Option<bool>,
}

/// Why no scene could be made.
#[derive(Debug)]
pub enum SceneError {
    /// An object names a shape or a material that the description does not
    /// declare; the message names it.
    DescriptorError(String),
    /// The description could not be read; the message says why.
    ParseError(String),
}

impl SceneError {
    /// The message of the error.
    pub fn message(&self) -> (r: &String)
        ensures
            *r == match *self {
                SceneError::DescriptorError(m) => m,
                SceneError::ParseError(m) => m,
            },
    {
        match self {
            SceneError::DescriptorError(m) => m,
            SceneError::ParseError(m) => m,
        }
    }
}

/// The place of the last of `names` that is `name`, if any is.
pub open spec fn last_index_of(names: Seq<Seq<char>>, name: Seq<char>) -> Option<int>
    decreases names.len(),
{
    if names.len() == 0 {
        None
    } else if names.last() == name {
        Some(names.len() - 1)
    } else {
        last_index_of(names.drop_last(), name)
    }
}

/// `last_index_of` finds a place that holds the name and after which the
/// name does not come again, and finds none only where the name is not there.
pub proof fn lemma_last_index_of(names: Seq<Seq<char>>, name: Seq<char>)
    ensures
        match last_index_of(names, name) {
            Some(i) => 0 <= i < names.len() && names[i] == name && forall|j: int|
                i < j < names.len() ==> names[j] != name,
            None => forall|j: int| 0 <= j < names.len() ==> names[j] != name,
        },
    decreases names.len(),
{
    if names.len() > 0 && names.last() != name {
        let shorter = names.drop_last();
        lemma_last_index_of(shorter, name);
        assert(forall|j: int| 0 <= j < shorter.len() ==> shorter[j] == names[j]);
        assert(names[names.len() - 1] != name);
    }
}

/// The names of `entries`, in their order.
pub open spec fn names_of<T>(entries: Seq<(String, T)>) -> Seq<Seq<char>> {
    Seq::new(entries.len(), |i: int| entries[i].0@)
}

/// The values of `entries`, in their order.
pub open spec fn values_of<T>(entries: Seq<(String, T)>) -> Seq<T> {
    Seq::new(entries.len(), |i: int| entries[i].1)
}

/// The message that says that the `what` named `name` is missing.
pub open spec fn missing_text(what: Seq<char>, name: Seq<char>) -> Seq<char> {
    "cannot find "@ + what + " '"@ + name + "' for object"@
}

/// The message that says that the `what` named `name` is missing, put
/// together by `format!`, which writes both strings as they are between the
/// fixed words.
#[verifier::external_body]
fn describe_missing(what: &str, name: &String) -> (r: String)
    ensures
        r@ == missing_text(what@, name@),
{
    format!("cannot find {} '{}' for object", what, name)
}

/// What a scene holds.
pub struct SceneView {
    pub camera: CameraView,
    /// The objects, each as the places of its shape and of its material.
    pub objects: Seq<ObjectEntry<usize>>,
    pub materials: Seq<DesMaterial>,
    pub geometries: Seq<GeometryType>,
    pub width: usize,
    pub height: usize,
    pub max_bounces: usize,
    pub debug_surfaces: bool,
    pub debug_error: bool,
}

impl SceneView {
    /// Whether every object refers to a shape and a material that are there.
    pub open spec fn wf(self) -> bool {
        forall|i: int|
            0 <= i < self.objects.len() ==> (#[trigger] self.objects[i]).geometry
                < self.geometries.len() && self.objects[i].material < self.materials.len()
    }

    /// The shape of the object `i`.
    pub open spec fn geometry_of(self, i: int) -> GeometryType {
        self.geometries[self.objects[i].geometry as int]
    }

    /// The material of the object `i`.
    pub open spec fn material_of(self, i: int) -> DesMaterial {
        self.materials[self.objects[i].material as int]
    }
}

impl DesScene {
    /// The object `i` with its names resolved: the place of the last shape and
    /// of the last material declared under the names that it gives, where both
    /// are declared.
    pub open spec fn resolved(&self, i: int) -> Option<ObjectEntry<usize>> {
        match (
            last_index_of(names_of(self.materials@), self.objects@[i].material@),
            last_index_of(names_of(self.geometries@), self.objects@[i].geometry@),
        ) {
            (Some(material), Some(geometry)) => Some(
                ObjectEntry { geometry: geometry as usize, material: material as usize },
            ),
            _ => None,
        }
    }

    /// Whether each of the first `n` objects names a shape and a material
    /// that are declared.
    pub open spec fn resolves(&self, n: int) -> bool {
        forall|i: int| 0 <= i < n ==> (#[trigger] self.resolved(i)) is Some
    }

    /// What is wrong with the object `i`: its material is missing, or else
    /// its shape is.
    pub open spec fn complaint(&self, i: int) -> Seq<char> {
        if last_index_of(names_of(self.materials@), self.objects@[i].material@) is None {
            missing_text("material"@, self.objects@[i].material@)
        } else {
            missing_text("geometry"@, self.objects@[i].geometry@)
        }
    }

    /// The camera of the scene: at the origin given, for the aspect ratio of
    /// the picture and the field of view given, turned by the angles given.
    pub open spec fn camera_view(&self) -> CameraView {
        let fresh = CameraView::initial(
            Real::spec_from_usize(self.width as usize).div(
                Real::spec_from_usize(self.height as usize),
            ),
            self.camera.fov.to_radians(),
        );
        (CameraView { origin: self.camera.origin, ..fresh }).rotated(self.camera.rotation)
    }

    /// The scene that the description gives where every name resolves.
    pub open spec fn scene_view(&self) -> SceneView {
        SceneView {
            camera: self.camera_view(),
            objects: Seq::new(self.objects@.len(), |i: int| self.resolved(i).unwrap()),
            materials: values_of(self.materials@),
            geometries: values_of(self.geometries@),
            width: self.width as usize,
            height: self.height as usize,
            max_bounces: self.max_bounces as usize,
            debug_surfaces: self.debug_surfaces,
            debug_error: match self.debug_error {
                Some(v) => v,
                None => false,
            },
        }
    }
}

/// The names and the values of `entries`, each in the order of `entries`.
fn split_entries<T>(entries: Vec<(String, T)>) -> (r: (Vec<String>, Vec<T>))
    ensures
        r.0@.len() == entries@.len(),
        r.1@ == values_of(entries@),
        forall|i: int| 0 <= i < entries@.len() ==> (#[trigger] r.0@[i])@ == entries@[i].0@,
{
    let mut entries = entries;
    let ghost all = entries@;
    let mut rev_names: Vec<String> = Vec::new();
    let mut rev_values: Vec<T> = Vec::new();
    loop
        invariant
            entries@.len() + rev_names@.len() == all.len(),
            rev_values@.len() == rev_names@.len(),
            forall|i: int| 0 <= i < entries@.len() ==> entries@[i] == all[i],
            forall|j: int|
                0 <= j < rev_names@.len() ==> (#[trigger] rev_names@[j]) == all[all.len() - 1 - j].0
                    && rev_values@[j] == all[all.len() - 1 - j].1,
        ensures
            entries@.len() == 0,
        decreases entries@.len(),
    {
        match entries.pop() {
            Some(pair) => {
                rev_names.push(pair.0);
                rev_values.push(pair.1);
            },
            None => {
                break ;
            },
        }
    }
    let mut names: Vec<String> = Vec::new();
    let mut values: Vec<T> = Vec::new();
    loop
        invariant
            rev_names@.len() + names@.len() == all.len(),
            rev_values@.len() == rev_names@.len(),
            values@.len() == names@.len(),
            forall|j: int|
                0 <= j < rev_names@.len() ==> (#[trigger] rev_names@[j]) == all[all.len() - 1 - j].0
                    && rev_values@[j] == all[all.len() - 1 - j].1,
            forall|i: int| 0 <= i < names@.len() ==> (#[trigger] names@[i]) == all[i].0,
            forall|i: int| 0 <= i < values@.len() ==> (#[trigger] values@[i]) == all[i].1,
        ensures
            rev_names@.len() == 0,
        decreases rev_names@.len(),
    {
        match rev_names.pop() {
            Some(name) => {
                let value = rev_values.pop();
                names.push(name);
                values.push(value.unwrap());
            },
            None => {
                break ;
            },
        }
    }
    assert(values@ =~= values_of(all));
    (names, values)
}

/// The place of the last of `names` that is `name`, if any is.
fn find_last(names: &Vec<String>, name: &String, Ghost(texts): Ghost<Seq<Seq<char>>>) -> (r: Option<
    usize,
>)
    requires
        texts.len() == names@.len(),
        forall|i: int| 0 <= i < names@.len() ==> (#[trigger] names@[i])@ == texts[i],
    ensures
        match r {
            Some(i) => last_index_of(texts, name@) == Some(i as int) && i < names@.len(),
            None => last_index_of(texts, name@) is None,
        },
{
    let mut i: usize = names.len();
    assert(texts.take(i as int) =~= texts);
    while i > 0
        invariant
            i <= names@.len(),
            texts.len() == names@.len(),
            forall|i: int| 0 <= i < names@.len() ==> (#[trigger] names@[i])@ == texts[i],
            last_index_of(texts, name@) == last_index_of(texts.take(i as int), name@),
        decreases i,
    {
        i = i - 1;
        proof {
            let part = texts.take(i + 1);
            assert(part.last() == texts[i as int]);
            assert(part.drop_last() =~= texts.take(i as int));
        }
        if names[i] == *name {
            return Some(i);
        }
    }
    proof {
        assert(texts.take(0).len() == 0);
    }
    None
}

/// A scene: shapes, materials, the objects made of them, a camera, and the
/// size and the depth of the picture to make.
pub struct Scene {
    pub camera: Camera,
    objects_map: Vec<ObjectEntry<usize>>,
    materials: Vec<DesMaterial>,
    geometries: Vec<GeometryType>,
    width: usize,
    height: usize,
    pub max_bounces: usize,
    pub debug_surfaces: bool,
    pub debug_error: bool,
}

impl View for Scene {
    type V = SceneView;

    closed spec fn view(&self) -> SceneView {
        SceneView {
            camera: self.camera@,
            objects: self.objects_map@,
            materials: self.materials@,
            geometries: self.geometries@,
            width: self.width,
            height: self.height,
            max_bounces: self.max_bounces,
            debug_surfaces: self.debug_surfaces,
            debug_error: self.debug_error,
        }
    }
}

impl Scene {
    /// Whether every object refers to a shape and a material that are there.
    pub open spec fn wf(&self) -> bool {
        self@.wf()
    }

    /// The scene that `des_scene` describes. Where an object names a material
    /// or a shape that is not declared, there is no scene: the error is a
    /// `DescriptorError` for the first such object, and names its material
    /// where that is missing, and its shape otherwise.
    pub fn try_from(des_scene: DesScene) -> (r: Result<Scene, SceneError>)
        ensures
            match r {
                Ok(scene) => {
                    &&& des_scene.resolves(des_scene.objects@.len() as int)
                    &&& scene.wf()
                    &&& scene@ == des_scene.scene_view()
                },
                Err(SceneError::DescriptorError(message)) => exists|i: int|
                    {
                        &&& 0 <= i < des_scene.objects@.len()
                        &&& des_scene.resolves(i)
                        &&& des_scene.resolved(i) is None
                        &&& message@ == #[trigger] des_scene.complaint(i)
                    },
                Err(SceneError::ParseError(_)) => false,
            },
    {
        let ghost des = des_scene;
        let DesScene {
            materials: des_materials,
            geometries: des_geometries,
            objects,
            camera: des_camera,
            width,
            height,
            max_bounces,
            debug_surfaces,
            debug_error,
        } = des_scene;
        let ghost material_names = names_of(des_materials@);
        let ghost geometry_names = names_of(des_geometries@);
        let (materials_names, materials) = split_entries(des_materials);
        let (geometries_names, geometries) = split_entries(des_geometries);
        let mut objects_map: Vec<ObjectEntry<usize>> = Vec::with_capacity(objects.len());
        let mut i: usize = 0;
        while i < objects.len()
            invariant
                i <= objects@.len(),
                des == des_scene,
                objects@ == des.objects@,
                material_names == names_of(des.materials@),
                geometry_names == names_of(des.geometries@),
                materials_names@.len() == material_names.len(),
                geometries_names@.len() == geometry_names.len(),
                materials@.len() == material_names.len(),
                geometries@.len() == geometry_names.len(),
                forall|j: int|
                    0 <= j < materials_names@.len() ==> (#[trigger] materials_names@[j])@
                        == material_names[j],
                forall|j: int|
                    0 <= j < geometries_names@.len() ==> (#[trigger] geometries_names@[j])@
                        == geometry_names[j],
                objects_map@.len() == i,
                des.resolves(i as int),
                forall|j: int| 0 <= j < i ==> Some(#[trigger] objects_map@[j]) == des.resolved(j),
                forall|j: int|
                    0 <= j < i ==> (#[trigger] objects_map@[j]).geometry < geometries@.len()
                        && objects_map@[j].material < materials@.len(),
            decreases objects@.len() - i,
        {
            let obj_entry = &objects[i];
            match find_last(&materials_names, &obj_entry.material, Ghost(material_names)) {
                Some(mat_index) => {
                    match find_last(&geometries_names, &obj_entry.geometry, Ghost(geometry_names)) {
                        Some(geo_index) => {
                            objects_map.push(
                                ObjectEntry { material: mat_index, geometry: geo_index },
                            );
                        },
                        None => {
                            let message = describe_missing("geometry", &obj_entry.geometry);
                            assert(des.resolved(i as int) is None);
                            assert(message@ == des.complaint(i as int));
                            return Err(SceneError::DescriptorError(message));
                        },
                    }
                },
                None => {
                    let message = describe_missing("material", &obj_entry.material);
                    assert(des.resolved(i as int) is None);
                    assert(message@ == des.complaint(i as int));
                    return Err(SceneError::DescriptorError(message));
                },
            }
            i = i + 1;
        }
        let mut camera = Camera::new(
            Real::from_usize(width as usize) / Real::from_usize(height as usize),
            des_camera.fov.to_radians(),
        );
        camera.set_origin(des_camera.origin);
        camera.rotate(des_camera.rotation);
        let scene = Scene {
            camera,
            objects_map,
            materials,
            geometries,
            width: width as usize,
            height: height as usize,
            max_bounces: max_bounces as usize,
            debug_surfaces,
            debug_error: match debug_error {
                Some(v) => v,
                None => false,
            },
        };
        assert(scene@.objects =~= des.scene_view().objects);
        Ok(scene)
    }

    /// The objects of the scene from the first, in the order in which they
    /// were described.
    pub fn objects_iter<'a>(&'a self) -> (r: ObjectsIterator<'a>)
        ensures
            r.scene() == self,
            r.position() == 0,
    {
        ObjectsIterator { scene: self, index: 0 }
    }

    /// The number of objects.
    pub fn objects_count(&self) -> (r: usize)
        ensures
            r == self@.objects.len(),
    {
        self.objects_map.len()
    }

    /// An empty frame buffer of the size of the scene's picture.
    pub fn new_pixel_buffer(&self) -> (r: PixelBuffer)
        requires
            fits_picture(self@.width, self@.height),
        ensures
            r.wf(),
            r@.width == self@.width,
            r@.height == self@.height,
            r@.samples_count == 0,
            r@.sums == Seq::new((self@.width * self@.height) as nat, |i: int| dark()),
    {
        PixelBuffer::new(self.width, self.height)
    }

    /// The width of the picture divided by its height.
    pub fn ratio(&self) -> (r: Real)
        ensures
            r == Real::spec_from_usize(self@.width).div(Real::spec_from_usize(self@.height)),
    {
        Real::from_usize(self.width) / Real::from_usize(self.height)
    }

    /// Makes one pass of `buffer` over the scene.
    pub fn render<B: RendererBuffer>(&self, buffer: &mut B)
        requires
            self.wf(),
            old(buffer).wf(),
            old(buffer).has_room(),
            old(buffer).spec_height() <= self@.height,
        ensures
            final(buffer).wf(),
            final(buffer).spec_width() == old(buffer).spec_width(),
            final(buffer).spec_height() == old(buffer).spec_height(),
            old(buffer).may_follow(final(buffer)),
            old(buffer).can_follow(
                final(buffer),
                |row: usize, col: usize, sample: RgbReal|
                    crate::renderer::render::may_sample(self@, row, col, sample),
            ),
    {
        crate::renderer::render::render(self, buffer);
    }

    /// The width of the picture, in pixels.
    pub fn width(&self) -> (r: usize)
        ensures
            r == self@.width,
    {
        self.width
    }

    /// The height of the picture, in pixels.
    pub fn height(&self) -> (r: usize)
        ensures
            r == self@.height,
    {
        self.height
    }

    /// The depth up to which rays are followed.
    pub fn max_bounces(&self) -> (r: usize)
        ensures
            r == self@.max_bounces,
    {
        self.max_bounces
    }

    /// Whether the picture shows which side of each surface is seen.
    pub fn debug_surfaces(&self) -> (r: bool)
        ensures
            r == self@.debug_surfaces,
    {
        self.debug_surfaces
    }

    /// The camera.
    pub fn camera(&self) -> (r: &Camera)
        ensures
            r@ == self@.camera,
    {
        &self.camera
    }
}

/// A walk through the objects of a scene.
pub struct ObjectsIterator<'a> {
    scene: &'a Scene,
    index: usize,
}

impl<'a> ObjectsIterator<'a> {
    /// The scene whose objects are walked through.
    pub closed spec fn scene(&self) -> &'a Scene {
        self.scene
    }

    /// The number of objects that have been handed out.
    pub closed spec fn position(&self) -> int {
        self.index as int
    }

    /// The next object, if one is left: its shape and its material, borrowed
    /// from the scene.
    pub fn next(&mut self) -> (r: Option<Object<'a, 'a>>)
        requires
            old(self).scene().wf(),
        ensures
            final(self).scene() == old(self).scene(),
            match r {
                Some(object) => {
                    &&& old(self).position() < old(self).scene()@.objects.len()
                    &&& final(self).position() == old(self).position() + 1
                    &&& *object.geometry == old(self).scene()@.geometry_of(old(self).position())
                    &&& *object.material == old(self).scene()@.material_of(old(self).position())
                },
                None => {
                    &&& old(self).position() >= old(self).scene()@.objects.len()
                    &&& final(self).position() == old(self).position()
                },
            },
    {
        if self.index < self.scene.objects_map.len() {
            let object_entry = &self.scene.objects_map[self.index];
            self.index = self.index + 1;
            Some(
                Object {
                    geometry: &self.scene.geometries[object_entry.geometry],
                    material: &self.scene.materials[object_entry.material],
                },
            )
        } else {
            None
        }
    }
}

} // verus!
