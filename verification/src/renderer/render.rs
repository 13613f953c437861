//! The estimator: how much light comes back along a ray, and one pass of a
//! frame buffer over a scene.
use vstd::prelude::*;
use crate::scalar::Real;
use crate::scalar::ONE_RAW;
use crate::scalar::HALF_RAW;
use crate::scalar::MAX_RAW;
use crate::random::random_fraction;
use crate::primitives::Vec3R;
use crate::primitives::Unit3R;
use crate::primitives::Ray;
use crate::primitives::Hit;
use crate::geometry::Geometry;
use crate::geometry::lemma_meeting_narrowed;
use crate::material::Material;
use crate::material::is_share;
use crate::material::is_light;
use crate::material::is_dimmed;
use crate::material::lemma_albedo_dims;
use crate::material::lemma_sent_is_dimmed;
use crate::scalar::lemma_mul_share;
use crate::object::Object;
use crate::scene::Scene;
use crate::scene::SceneView;
use crate::renderer::renderer_buffer::RendererBuffer;
use crate::renderer::renderer_buffer::RgbReal;

verus! {

/// The raw value of the least distance at which a ray can meet a surface: ten
/// thousand units, so that a ray that leaves a surface does not meet it again
/// where it starts.
pub const MIN_HIT_DISTANCE_RAW: i64 = 10000;

/// No light.
pub open spec fn black() -> Vec3R {
    Vec3R { x: Real { raw: 0 }, y: Real { raw: 0 }, z: Real { raw: 0 } }
}

/// The colour of the sky straight up.
pub open spec fn sky() -> Vec3R {
    Vec3R { x: Real::spec_from_ratio(3, 10), y: Real { raw: HALF_RAW }, z: Real { raw: ONE_RAW } }
}

/// The colour of the ground straight down.
pub open spec fn ground() -> Vec3R {
    Vec3R { x: Real { raw: ONE_RAW }, y: Real { raw: ONE_RAW }, z: Real { raw: ONE_RAW } }
}

/// The colour of the background in the direction whose second component is
/// `y`: between the ground's and the sky's, at `(y + 1) / 2` of the way.
pub open spec fn background_gradient(y: Real) -> Vec3R {
    ground().spec_lerp(&sky(), y.add(Real { raw: ONE_RAW }).mul(Real { raw: HALF_RAW }))
}

/// What comes back along a ray that meets nothing: the light that the ray
/// carries times the background's colour in its direction.
pub open spec fn spec_background_color(ray: &Ray) -> Vec3R {
    ray.color.spec_mul(background_gradient(ray.direction@.y))
}

/// What comes back along a ray that meets nothing: the light that the ray
/// carries times the background's colour in its direction.
#[verifier::when_used_as_spec(spec_background_color)]
pub fn background_color(ray: &Ray) -> (color: Vec3R)
    ensures
        color == spec_background_color(ray),
{
    let top_color = Vec3R::new(Real::from_ratio(3, 10), Real::from_raw(HALF_RAW), Real::one());
    let bottom_color = Vec3R::new(Real::one(), Real::one(), Real::one());
    let k = (ray.direction.vec().y + Real::one()) * Real::from_raw(HALF_RAW);
    let color = bottom_color.lerp(&top_color, k);
    ray.color * color
}

/// The nearest meeting of `ray` with the first `n` objects of the scene: the
/// distance, and the object. Each object is asked for a meeting nearer than
/// the nearest so far, and replaces it where it has one; the distance is the
/// largest number, and there is no object, where none has.
pub open spec fn nearest(scene: SceneView, ray: &Ray, n: int) -> (Real, Option<int>)
    decreases n,
{
    if n <= 0 {
        (Real { raw: MAX_RAW }, None)
    } else {
        let so_far = nearest(scene, ray, n - 1);
        let time = scene.geometry_of(n - 1).meeting(
            ray,
            Real { raw: MIN_HIT_DISTANCE_RAW },
            so_far.0,
        );
        if time@ < so_far.0@ {
            (time, Some(n - 1))
        } else {
            so_far
        }
    }
}

/// How far along `ray` the object `i` of the scene is met, whatever else is
/// in the scene: the largest number where it is not met.
pub open spec fn reach(scene: SceneView, ray: &Ray, i: int) -> Real {
    scene.geometry_of(i).meeting(
        ray,
        Real { raw: MIN_HIT_DISTANCE_RAW },
        Real { raw: MAX_RAW },
    )
}

/// The search finds the nearest object. The distance that it finds among the
/// first `n` objects is the least of the distances at which these are met.
/// Where one of them is met, the object found is the first that is met at
/// that distance; where none is, no object is found.
pub proof fn lemma_nearest_is_least(scene: SceneView, ray: &Ray, n: int)
    requires
        0 <= n <= scene.objects.len(),
    ensures
        forall|i: int| 0 <= i < n ==> nearest(scene, ray, n).0@ <= (#[trigger] reach(scene, ray, i))@,
        match nearest(scene, ray, n).1 {
            Some(j) => {
                &&& 0 <= j < n
                &&& nearest(scene, ray, n).0 == reach(scene, ray, j)
                &&& reach(scene, ray, j)@ < MAX_RAW
                &&& forall|i: int| 0 <= i < j ==> (#[trigger] reach(scene, ray, i))@ > reach(scene, ray, j)@
            },
            None => nearest(scene, ray, n).0@ == MAX_RAW,
        },
    decreases n,
{
    if n > 0 {
        lemma_nearest_is_least(scene, ray, n - 1);
        let so_far = nearest(scene, ray, n - 1);
        lemma_meeting_narrowed(
            scene.geometry_of(n - 1),
            ray,
            Real { raw: MIN_HIT_DISTANCE_RAW },
            so_far.0,
        );
        assert(forall|i: int|
            0 <= i < n - 1 ==> so_far.0@ <= (#[trigger] reach(scene, ray, i))@);
    }
}

/// The object that `ray` meets first in the scene, if it meets one.
pub open spec fn first_met(scene: SceneView, ray: &Ray) -> Option<int> {
    nearest(scene, ray, scene.objects.len() as int).1
}

/// Where `ray` meets the object `i`, which it meets first in the scene.
pub open spec fn first_hit(scene: SceneView, ray: &Ray, i: int) -> Hit {
    scene.geometry_of(i).hit_at(ray, nearest(scene, ray, scene.objects.len() as int).0)
}

/// The object that `ray` meets first in the scene, with the distance.
fn find_nearest<'a>(ray: &Ray, scene: &'a Scene) -> (r: (Real, Option<Object<'a, 'a>>))
    requires
        scene.wf(),
    ensures
        r.0 == nearest(scene@, ray, scene@.objects.len() as int).0,
        match r.1 {
            Some(object) => {
                &&& first_met(scene@, ray) is Some
                &&& *object.geometry == scene@.geometry_of(first_met(scene@, ray).unwrap())
                &&& *object.material == scene@.material_of(first_met(scene@, ray).unwrap())
            },
            None => first_met(scene@, ray) is None,
        },
{
    let mut max_time = Real::infinity();
    let mut maybe_object: Option<Object<'a, 'a>> = None;
    let mut objects = scene.objects_iter();
    loop
        invariant
            scene.wf(),
            objects.scene() == scene,
            0 <= objects.position() <= scene@.objects.len(),
            max_time == nearest(scene@, ray, objects.position()).0,
            match maybe_object {
                Some(object) => {
                    &&& nearest(scene@, ray, objects.position()).1 is Some
                    &&& *object.geometry == scene@.geometry_of(
                        nearest(scene@, ray, objects.position()).1.unwrap(),
                    )
                    &&& *object.material == scene@.material_of(
                        nearest(scene@, ray, objects.position()).1.unwrap(),
                    )
                },
                None => nearest(scene@, ray, objects.position()).1 is None,
            },
        ensures
            objects.position() == scene@.objects.len(),
        decreases scene@.objects.len() - objects.position(),
    {
        match objects.next() {
            Some(object) => {
                let time = object.geometry.intersect(
                    ray,
                    Real::from_raw(MIN_HIT_DISTANCE_RAW),
                    max_time,
                );
                if time.lt(max_time) {
                    maybe_object = Some(object);
                    max_time = time;
                }
            },
            None => {
                break ;
            },
        }
    }
    (max_time, maybe_object)
}

/// Whether `bounce_ray` can return `out` for `ray`: nothing where the ray
/// meets nothing, and else a ray that the material of the object met first
/// can send on from where the ray meets it.
pub open spec fn may_bounce_ray(scene: SceneView, ray: &Ray, out: Option<Ray>) -> bool {
    match first_met(scene, ray) {
        Some(i) => out is Some && scene.material_of(i).may_send(
            ray,
            &first_hit(scene, ray, i),
            out.unwrap(),
        ),
        None => out is None,
    }
}

/// The ray that leaves the surface that `ray` meets first in the scene, if it
/// meets one.
pub fn bounce_ray(ray: &Ray, scene: &Scene) -> (out: Option<Ray>)
    requires
        scene.wf(),
    ensures
        may_bounce_ray(scene@, ray, out),
{
    let (max_time, maybe_object) = find_nearest(ray, scene);
    match maybe_object {
        Some(object) => {
            let hit = object.geometry.hit(ray, max_time);
            Some(object.material.bounce(ray, &hit))
        },
        None => None,
    }
}

/// The raw value of the light below which a ray is not followed further:
/// a tenth of the least step of a byte.
pub open spec fn negligible() -> Real {
    Real::spec_from_ratio(1, 2560)
}

/// Whether `ray_color` can return `color` for `ray` at the depth `bounces`.
/// Beyond the depth of the scene no light comes back. A ray that meets
/// nothing brings back the background. A ray that meets an object is sent on
/// by its material: what was sent on comes back as it is where its light is
/// negligible, and is followed one level deeper where it is not.
pub open spec fn may_shade(scene: SceneView, ray: Ray, bounces: int, color: Vec3R) -> bool
    decreases scene.max_bounces + 1 - bounces,
{
    if bounces > scene.max_bounces {
        color == black()
    } else {
        match first_met(scene, &ray) {
            None => color == spec_background_color(&ray),
            Some(i) => exists|out: Ray| #[trigger]
                scene.material_of(i).may_send(&ray, &first_hit(scene, &ray, i), out) && (
                if out.color.spec_max_component()@ < negligible()@ {
                    color == out.color
                } else {
                    may_shade(scene, out, bounces + 1, color)
                }),
        }
    }
}

/// The light that comes back along `ray`, which is at the depth `bounces`.
/// Beyond the depth of the scene that is none, and for a ray that meets
/// nothing it is the background seen through what the ray carries.
pub fn ray_color(ray: &Ray, scene: &Scene, bounces: usize) -> (color: Vec3R)
    requires
        scene.wf(),
    ensures
        may_shade(scene@, *ray, bounces as int, color),
        bounces > scene@.max_bounces ==> color == black(),
        bounces <= scene@.max_bounces && first_met(scene@, ray) is None ==> color
            == spec_background_color(ray),
    decreases scene@.max_bounces + 1 - bounces,
{
    if bounces > scene.max_bounces() {
        return Vec3R::new(Real::zero(), Real::zero(), Real::zero());
    }
    match bounce_ray(ray, scene) {
        Some(bounced_ray) => {
            let color = if bounced_ray.color.max_component().lt(Real::from_ratio(1, 2560)) {
                bounced_ray.color
            } else if bounces == usize::MAX {
                Vec3R::new(Real::zero(), Real::zero(), Real::zero())
            } else {
                ray_color(&bounced_ray, scene, bounces + 1)
            };
            proof {
                let i = first_met(scene@, ray).unwrap();
                assert(scene@.material_of(i).may_send(
                    ray,
                    &first_hit(scene@, ray, i),
                    bounced_ray,
                ));
                if bounced_ray.color.spec_max_component()@ >= negligible()@ {
                    assert(may_shade(scene@, bounced_ray, bounces + 1, color));
                }
            }
            color
        },
        None => background_color(ray),
    }
}

/// Whether every material of the scene has an albedo of shares.
pub open spec fn is_sane(scene: SceneView) -> bool {
    forall|i: int| 0 <= i < scene.materials.len() ==> is_share((#[trigger] scene.materials[i]).tint())
}

/// The background's colour is made of shares wherever one looks.
pub proof fn lemma_gradient_is_share(y: Real)
    requires
        -ONE_RAW <= y@ <= ONE_RAW,
    ensures
        is_share(background_gradient(y)),
{
    let one = Real { raw: ONE_RAW };
    let k = y.add(one).mul(Real { raw: HALF_RAW });
    let lifted = y@ + ONE_RAW;
    assert(0 <= (lifted * HALF_RAW) / (ONE_RAW as int) <= ONE_RAW) by (nonlinear_arith)
        requires
            0 <= lifted <= 2 * ONE_RAW,
            HALF_RAW == 0x8000_0000,
            ONE_RAW == 0x1_0000_0000,
    ;
    assert(0 <= k@ <= ONE_RAW);
    let rest = one.sub(k);
    lemma_mul_share(rest, ground().x);
    lemma_mul_share(rest, ground().y);
    lemma_mul_share(rest, ground().z);
    lemma_ratio_is_share();
    lemma_mul_share(k, sky().x);
    lemma_mul_share(k, sky().y);
    lemma_mul_share(k, sky().z);
    lemma_mul_one(rest);
}

/// Three tenths is a share.
proof fn lemma_ratio_is_share()
    ensures
        0 <= Real::spec_from_ratio(3, 10)@ <= ONE_RAW,
{
    assert(3int * 0x1_0000_0000 == 12884901888int);
    assert(10int * 0x1_0000_0000 == 42949672960int);
    assert((12884901888int * 0x1_0000_0000) / 42949672960int == 1288490188int);
}

/// A number that is not negative stays as it is when it is multiplied by one.
proof fn lemma_mul_one(a: Real)
    requires
        0 <= a@,
    ensures
        a.mul(Real { raw: ONE_RAW }) == a,
{
    assert((a@ * ONE_RAW) / (ONE_RAW as int) == a@) by (nonlinear_arith)
        requires
            ONE_RAW == 0x1_0000_0000,
    ;
}

/// No more light comes back along a ray than the ray carries. In a scene
/// whose materials all have albedos of shares, whatever `ray_color` can
/// return for a ray that carries light, and that has a direction of the
/// length one, is that light dimmed, channel by channel.
pub proof fn lemma_shade_is_dimmed(scene: SceneView, ray: Ray, bounces: int, color: Vec3R)
    requires
        scene.wf(),
        is_sane(scene),
        is_light(ray.color),
        ray.direction@.spec_is_unit() || ray.direction@.spec_is_zero(),
        may_shade(scene, ray, bounces, color),
    ensures
        is_dimmed(color, ray.color),
    decreases scene.max_bounces + 1 - bounces,
{
    if bounces > scene.max_bounces {
    } else {
        match first_met(scene, &ray) {
            None => {
                ray.direction@.lemma_unit_is_bounded();
                lemma_gradient_is_share(ray.direction@.y);
                lemma_albedo_dims(ray.color, background_gradient(ray.direction@.y));
            },
            Some(i) => {
                lemma_nearest_is_least(scene, &ray, scene.objects.len() as int);
                let hit = first_hit(scene, &ray, i);
                let out = choose|out: Ray| #[trigger]
                    scene.material_of(i).may_send(&ray, &hit, out) && (
                    if out.color.spec_max_component()@ < negligible()@ {
                        color == out.color
                    } else {
                        may_shade(scene, out, bounces + 1, color)
                    });
                assert(is_share(scene.materials[scene.objects[i].material as int].tint()));
                lemma_sent_is_dimmed(scene.material_of(i), &ray, &hit, out);
                if out.color.spec_max_component()@ >= negligible()@ {
                    lemma_shade_is_dimmed(scene, out, bounces + 1, color);
                }
            },
        }
    }
}

/// The colour that marks a surface seen from outside: blue.
pub open spec fn front_mark() -> Vec3R {
    Vec3R { x: Real { raw: 0 }, y: Real { raw: 0 }, z: Real { raw: ONE_RAW } }
}

/// The colour that marks a surface seen from inside: red.
pub open spec fn back_mark() -> Vec3R {
    Vec3R { x: Real { raw: ONE_RAW }, y: Real { raw: 0 }, z: Real { raw: 0 } }
}

/// The light above which a bounce counts when surfaces are shown: the least
/// step of a byte.
pub open spec fn noticeable() -> Real {
    Real::spec_from_ratio(1, 256)
}

/// Whether `debug_surfaces_bounce_ray` can return `out` for `ray`: nothing
/// where the ray meets nothing or what is sent on carries no noticeable
/// light, and else what is sent on, carrying the mark of the side from which
/// the surface is seen.
pub open spec fn may_mark(scene: SceneView, ray: &Ray, out: Option<Ray>) -> bool {
    match first_met(scene, ray) {
        Some(i) => exists|sent: Ray| #[trigger]
            scene.material_of(i).may_send(ray, &first_hit(scene, ray, i), sent) && (
            if sent.color.spec_max_component()@ > noticeable()@ {
                out == Some(
                    Ray {
                        color: if first_hit(scene, ray, i).is_front_face {
                            front_mark()
                        } else {
                            back_mark()
                        },
                        ..sent
                    },
                )
            } else {
                out is None
            }),
        None => out is None,
    }
}

/// The ray that leaves the surface that `ray` meets first, marked with the
/// side from which the surface is seen, if the ray meets a surface and is
/// sent on with noticeable light.
pub fn debug_surfaces_bounce_ray(ray: &Ray, scene: &Scene) -> (out: Option<Ray>)
    requires
        scene.wf(),
    ensures
        may_mark(scene@, ray, out),
{
    let (max_time, maybe_object) = find_nearest(ray, scene);
    match maybe_object {
        Some(object) => {
            let hit = object.geometry.hit(ray, max_time);
            let sent = object.material.bounce(ray, &hit);
            proof {
                let i = first_met(scene@, ray).unwrap();
                assert(scene@.material_of(i).may_send(ray, &first_hit(scene@, ray, i), sent));
            }
            if sent.color.max_component().gt(Real::from_ratio(1, 256)) {
                let mark = if hit.is_front_face {
                    Vec3R::new(Real::zero(), Real::zero(), Real::one())
                } else {
                    Vec3R::new(Real::one(), Real::zero(), Real::zero())
                };
                Some(Ray::with_color(sent.origin, sent.direction, mark))
            } else {
                None
            }
        },
        None => None,
    }
}

/// Whether `debug_surfaces` can return `color` for `ray` at the depth
/// `bounces`: beyond the depth of the scene, what the ray carries; black
/// where the ray is not sent on with a mark; and else what comes of the
/// marked ray one level deeper.
pub open spec fn may_show(scene: SceneView, ray: Ray, bounces: int, color: Vec3R) -> bool
    decreases scene.max_bounces + 1 - bounces,
{
    if bounces > scene.max_bounces {
        color == ray.color
    } else {
        exists|out: Option<Ray>| #[trigger]
            may_mark(scene, &ray, out) && (match out {
                Some(marked) => may_show(scene, marked, bounces + 1, color),
                None => color == black(),
            })
    }
}

/// The colour that shows which side of a surface is seen along `ray`, which
/// is at the depth `bounces`.
pub fn debug_surfaces(ray: &Ray, scene: &Scene, bounces: usize) -> (color: Vec3R)
    requires
        scene.wf(),
    ensures
        may_show(scene@, *ray, bounces as int, color),
        bounces > scene@.max_bounces ==> color == ray.color,
    decreases scene@.max_bounces + 1 - bounces,
{
    if bounces > scene.max_bounces() {
        return ray.color;
    }
    let marked = debug_surfaces_bounce_ray(ray, scene);
    let color = match &marked {
        Some(bounced_ray) => {
            if bounces == usize::MAX {
                bounced_ray.color
            } else {
                debug_surfaces(bounced_ray, scene, bounces + 1)
            }
        },
        None => Vec3R::new(Real::zero(), Real::zero(), Real::zero()),
    };
    proof {
        assert(may_mark(scene@, ray, marked));
        if marked is Some {
            assert(may_show(scene@, marked.unwrap(), bounces + 1, color));
        }
    }
    color
}

/// The ray through the pixel in the row `row_index` and the column
/// `col_index` of the scene's picture, moved within the pixel by the shares
/// `jitter_x` and `jitter_y`. Rows count from the top, the viewport from the
/// bottom.
pub open spec fn spec_pixel_ray(
    scene: SceneView,
    row_index: usize,
    col_index: usize,
    jitter_x: Real,
    jitter_y: Real,
) -> Ray {
    let width = Real::spec_from_usize(scene.width);
    let height = Real::spec_from_usize(scene.height);
    let w = Real::spec_from_usize(col_index).div(width).add(jitter_x.div(width));
    let h = Real::spec_from_usize((scene.height - 1 - row_index) as usize).div(height).add(
        jitter_y.div(height),
    );
    scene.camera.ray_at(w, h)
}

/// The ray through the pixel in the row `row_index` and the column
/// `col_index` of the scene's picture, moved within the pixel by the shares
/// `jitter_x` and `jitter_y`.
pub fn pixel_ray(
    scene: &Scene,
    row_index: usize,
    col_index: usize,
    jitter_x: Real,
    jitter_y: Real,
) -> (ray: Ray)
    requires
        row_index < scene@.height,
    ensures
        ray == spec_pixel_ray(scene@, row_index, col_index, jitter_x, jitter_y),
{
    let width = Real::from_usize(scene.width());
    let height = Real::from_usize(scene.height());
    let w = Real::from_usize(col_index) / width;
    let h = Real::from_usize(scene.height() - 1 - row_index) / height;
    let w = w + jitter_x / width;
    let h = h + jitter_y / height;
    scene.camera().ray_at(w, h)
}

/// Whether `sample` can be a sample of the pixel in the row `row_index` and
/// the column `col_index`: what comes back along the ray through the pixel,
/// for some place within the pixel.
pub open spec fn may_sample(
    scene: SceneView,
    row_index: usize,
    col_index: usize,
    sample: RgbReal,
) -> bool {
    exists|jitter_x: Real, jitter_y: Real|
        {
            let ray = #[trigger] spec_pixel_ray(scene, row_index, col_index, jitter_x, jitter_y);
            let color = Vec3R { x: sample.0, y: sample.1, z: sample.2 };
            &&& 0 <= jitter_x@ < ONE_RAW
            &&& 0 <= jitter_y@ < ONE_RAW
            &&& if scene.debug_surfaces {
                may_show(scene, ray, 1, color)
            } else {
                may_shade(scene, ray, 1, color)
            }
        }
}

/// Every sample of a picture is made of shares: in a scene whose materials
/// all have albedos of shares, whatever `sample_pixel` can return when it
/// shades is, in each channel, a number from zero to one.
pub proof fn lemma_sample_is_share(
    scene: SceneView,
    row_index: usize,
    col_index: usize,
    sample: RgbReal,
)
    requires
        scene.wf(),
        is_sane(scene),
        !scene.debug_surfaces,
        may_sample(scene, row_index, col_index, sample),
    ensures
        is_share(Vec3R { x: sample.0, y: sample.1, z: sample.2 }),
{
    let color = Vec3R { x: sample.0, y: sample.1, z: sample.2 };
    let (jitter_x, jitter_y) = choose|jitter_x: Real, jitter_y: Real|
        {
            let ray = #[trigger] spec_pixel_ray(scene, row_index, col_index, jitter_x, jitter_y);
            &&& 0 <= jitter_x@ < ONE_RAW
            &&& 0 <= jitter_y@ < ONE_RAW
            &&& if scene.debug_surfaces {
                may_show(scene, ray, 1, color)
            } else {
                may_shade(scene, ray, 1, color)
            }
        };
    let ray = spec_pixel_ray(scene, row_index, col_index, jitter_x, jitter_y);
    let width = Real::spec_from_usize(scene.width);
    let height = Real::spec_from_usize(scene.height);
    let w = Real::spec_from_usize(col_index).div(width).add(jitter_x.div(width));
    let h = Real::spec_from_usize((scene.height - 1 - row_index) as usize).div(height).add(
        jitter_y.div(height),
    );
    let through = scene.camera.lower_left_corner.spec_add(
        scene.camera.horizontal.spec_scale(w),
    ).spec_add(scene.camera.vertical.spec_scale(h));
    let heading = through.spec_sub(scene.camera.origin);
    heading.lemma_normalize_is_unit_or_zero();
    Unit3R::lemma_holding_view(heading.spec_normalize());
    lemma_shade_is_dimmed(scene, ray, 1, color);
}

/// One sample of the pixel in the row `row_index` and the column `col_index`
/// of the scene's picture: what comes back along a ray through a random place
/// within the pixel.
pub fn sample_pixel(scene: &Scene, row_index: usize, col_index: usize) -> (sample: RgbReal)
    requires
        scene.wf(),
        row_index < scene@.height,
    ensures
        may_sample(scene@, row_index, col_index, sample),
{
    let jitter_x = random_fraction();
    let jitter_y = random_fraction();
    let ray = pixel_ray(scene, row_index, col_index, jitter_x, jitter_y);
    let color = if scene.debug_surfaces() {
        debug_surfaces(&ray, scene, 1)
    } else {
        ray_color(&ray, scene, 1)
    };
    (color.x, color.y, color.z)
}

/// Makes one pass of `buffer` over `scene`: every sample that the buffer
/// takes for a pixel is a sample of the scene at that pixel.
pub fn render<B: RendererBuffer>(scene: &Scene, buffer: &mut B)
    requires
        scene.wf(),
        old(buffer).wf(),
        old(buffer).has_room(),
        old(buffer).spec_height() <= scene@.height,
    ensures
        final(buffer).wf(),
        final(buffer).spec_width() == old(buffer).spec_width(),
        final(buffer).spec_height() == old(buffer).spec_height(),
        old(buffer).may_follow(final(buffer)),
        old(buffer).can_follow(
            final(buffer),
            |row: usize, col: usize, sample: RgbReal| may_sample(scene@, row, col, sample),
        ),
{
    let sampler = |row_index: usize, col_index: usize| -> (sample: RgbReal)
        requires
            scene.wf(),
            row_index < scene@.height,
        ensures
            may_sample(scene@, row_index, col_index, sample),
        { sample_pixel(scene, row_index, col_index) };
    let ghost before = *buffer;
    let ghost taken = |row: usize, col: usize, sample: RgbReal|
        call_ensures(sampler, (row, col), sample);
    let ghost of_scene = |row: usize, col: usize, sample: RgbReal|
        may_sample(scene@, row, col, sample);
    buffer.sample_pixels(sampler);
    proof {
        before.lemma_can_follow_weaker(&*buffer, taken, of_scene);
    }
}

} // verus!
