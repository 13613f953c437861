//! The camera: where it stands, where it looks, and the rays that it sends
//! through its viewport.
use vstd::prelude::*;
use crate::scalar::Real;
use crate::scalar::ONE_RAW;
use crate::scalar::HALF_RAW;
use crate::scalar::TWO_RAW;
use crate::trig::turn_part;
use crate::primitives::Vec2R;
use crate::primitives::Vec3R;
use crate::primitives::Point3R;
use crate::primitives::Unit3R;
use crate::primitives::Ray;
use crate::primitives::FULL_RAW;

verus! {

/// What a camera holds.
pub struct CameraView {
    pub origin: Point3R,
    pub lower_left_corner: Point3R,
    pub horizontal: Vec3R,
    pub vertical: Vec3R,
    pub direction: Vec3R,
    pub aspect_ratio: Real,
    pub fov_radians: Real,
    pub rotation: Vec2R,
}

impl CameraView {
    /// The camera at the origin with an upright viewport two high, one unit
    /// down the third axis.
    pub open spec fn initial(aspect_ratio: Real, fov_radians: Real) -> CameraView {
        let zero = Real { raw: 0 };
        let half = Real { raw: HALF_RAW };
        let origin = Vec3R { x: zero, y: zero, z: zero };
        let horizontal = Vec3R { x: aspect_ratio.mul(Real { raw: TWO_RAW }), y: zero, z: zero };
        let vertical = Vec3R { x: zero, y: Real { raw: TWO_RAW }, z: zero };
        CameraView {
            origin,
            lower_left_corner: origin.spec_sub(horizontal.spec_scale_left(half)).spec_sub(
                vertical.spec_scale_left(half),
            ).spec_sub(Vec3R { x: zero, y: zero, z: Real { raw: ONE_RAW } }),
            horizontal,
            vertical,
            direction: Unit3R::up_vec(),
            aspect_ratio,
            fov_radians,
            rotation: Vec2R { x: zero, y: zero },
        }
    }

    /// The direction to the right of the camera, of length one: up crossed
    /// with the camera's direction.
    pub open spec fn right(self) -> Vec3R {
        Unit3R::up_vec().spec_cross(&self.direction).spec_normalize()
    }

    /// This camera with its viewport set up again for its direction, its field
    /// of view and its aspect ratio, at the distance one from its origin.
    pub open spec fn with_viewport(self) -> CameraView {
        let viewport_height = Real { raw: TWO_RAW }.mul(
            self.fov_radians.mul(Real { raw: HALF_RAW }).tan(),
        );
        let viewport_width = self.aspect_ratio.mul(viewport_height);
        let horizontal = self.right().spec_scale_left(viewport_width);
        let vertical = self.direction.spec_cross(&self.right()).spec_scale_left(viewport_height);
        CameraView {
            horizontal,
            vertical,
            lower_left_corner: self.origin.spec_sub(
                horizontal.spec_scale(Real { raw: HALF_RAW }),
            ).spec_sub(vertical.spec_scale(Real { raw: HALF_RAW })).spec_sub(self.direction),
            ..self
        }
    }

    /// The direction that belongs to the two angles of `rotation`.
    pub open spec fn heading(rotation: Vec2R) -> Vec3R {
        let b = rotation.x.cos();
        Unit3R::normalized_vec(
            Vec3R {
                x: rotation.y.sin().mul(b),
                y: rotation.x.sin(),
                z: rotation.y.cos().neg().mul(b),
            },
        )
    }

    /// This camera turned by the two angles of `rotation_rads`: each is added
    /// to the angle held and the sum brought into one turn; the direction and
    /// the viewport follow.
    pub open spec fn rotated(self, rotation_rads: Vec2R) -> CameraView {
        let rotation = Vec2R {
            x: Real { raw: turn_part(self.rotation.x.add(rotation_rads.x)) as i64 },
            y: Real { raw: turn_part(self.rotation.y.add(rotation_rads.y)) as i64 },
        };
        CameraView { rotation, direction: CameraView::heading(rotation), ..self }.with_viewport()
    }

    /// This camera turned toward `target`, with the two angles that belong to
    /// that direction.
    pub open spec fn looking_at(self, target: Vec3R) -> CameraView {
        let direction = target.spec_normalize();
        let pitch = direction.y.asin();
        CameraView {
            direction,
            rotation: Vec2R { x: pitch, y: direction.x.div(pitch.cos()).asin() },
            ..self
        }.with_viewport()
    }

    /// This camera moved by `movement`, viewport and all.
    pub open spec fn shifted(self, movement: Vec3R) -> CameraView {
        CameraView {
            origin: self.origin.spec_add(movement),
            lower_left_corner: self.lower_left_corner.spec_add(movement),
            ..self
        }
    }

    /// The ray from the camera through the point of its viewport at `x` of
    /// its width and `y` of its height.
    pub open spec fn ray_at(self, x: Real, y: Real) -> Ray {
        let through = self.lower_left_corner.spec_add(self.horizontal.spec_scale(x)).spec_add(
            self.vertical.spec_scale(y),
        );
        Ray {
            origin: self.origin,
            direction: Unit3R::holding(through.spec_sub(self.origin).spec_normalize()),
            color: Vec3R {
                x: Real { raw: FULL_RAW },
                y: Real { raw: FULL_RAW },
                z: Real { raw: FULL_RAW },
            },
        }
    }
}

/// A camera.
#[derive(Clone, Copy)]
pub struct Camera {
    pub origin: Point3R,
    lower_left_corner: Point3R,
    horizontal: Vec3R,
    vertical: Vec3R,
    direction: Unit3R,
    aspect_ratio: Real,
    pub fov_radians: Real,
    rotation: Vec2R,
}

impl View for Camera {
    type V = CameraView;

    closed spec fn view(&self) -> CameraView {
        CameraView {
            origin: self.origin,
            lower_left_corner: self.lower_left_corner,
            horizontal: self.horizontal,
            vertical: self.vertical,
            direction: self.direction@,
            aspect_ratio: self.aspect_ratio,
            fov_radians: self.fov_radians,
            rotation: self.rotation,
        }
    }
}

impl Camera {
    /// Puts the camera at `origin`. The viewport stays where it is until it is
    /// next set up.
    pub fn set_origin(&mut self, origin: Point3R)
        ensures
            final(self)@ == (CameraView { origin, ..old(self)@ }),
    {
        self.origin = origin;
    }

    /// The camera at the origin with an upright viewport two high, one unit
    /// down the third axis, for a picture of the aspect ratio `aspect_ratio`.
    pub fn new(aspect_ratio: Real, fov_radians: Real) -> (r: Camera)
        ensures
            r@ == CameraView::initial(aspect_ratio, fov_radians),
    {
        let focal_length = Real::one();
        let viewport_height = Real::from_int(2);
        let viewport_width = aspect_ratio * viewport_height;
        let origin = Vec3R::new(Real::zero(), Real::zero(), Real::zero());
        let horizontal = Vec3R::new(viewport_width, Real::zero(), Real::zero());
        let vertical = Vec3R::new(Real::zero(), viewport_height, Real::zero());
        let half = Real::from_raw(HALF_RAW);
        let lower_left_corner = origin - half * horizontal - half * vertical - Vec3R::new(
            Real::zero(),
            Real::zero(),
            focal_length,
        );
        Camera {
            origin,
            lower_left_corner,
            horizontal,
            vertical,
            direction: Unit3R::up(),
            fov_radians,
            rotation: Vec2R::new(Real::zero(), Real::zero()),
            aspect_ratio,
        }
    }

    /// Sets the aspect ratio to that of a picture `width` wide and `height`
    /// high. The viewport stays as it is until it is next set up.
    pub fn set_aspect_ratio(&mut self, width: usize, height: usize)
        ensures
            final(self)@ == (CameraView {
                aspect_ratio: Real::spec_from_usize(width).div(Real::spec_from_usize(height)),
                ..old(self)@
            }),
    {
        self.aspect_ratio = Real::from_usize(width) / Real::from_usize(height);
    }

    /// Turns the camera toward `target` and sets up its viewport.
    pub fn look_at(&mut self, target: Vec3R)
        ensures
            final(self)@ == old(self)@.looking_at(target),
    {
        self.direction = target.unit();
        self.rotation.x = self.direction.vec().y.asin();
        self.rotation.y = (self.direction.vec().x / self.rotation.x.cos()).asin();
        self.update_viewport();
    }

    /// The angle brought into one full turn, from zero.
    pub fn clamp_angle(angle: Real) -> (r: Real)
        ensures
            r@ == turn_part(angle),
            0 <= r@ < crate::scalar::TWO_PI_RAW,
    {
        angle.wrapped()
    }

    /// Turns the camera by the two angles of `rotation_rads` and sets up its
    /// viewport.
    pub fn rotate(&mut self, rotation_rads: Vec2R)
        ensures
            final(self)@ == old(self)@.rotated(rotation_rads),
    {
        self.rotation.x = Camera::clamp_angle(self.rotation.x + rotation_rads.x);
        self.rotation.y = Camera::clamp_angle(self.rotation.y + rotation_rads.y);
        let b = self.rotation.x.cos();
        self.direction = Unit3R::normalized(
            Vec3R::new(
                self.rotation.y.sin() * b,
                self.rotation.x.sin(),
                self.rotation.y.cos().neg() * b,
            ),
        );
        self.update_viewport();
    }

    /// Sets up the viewport for the camera's direction, field of view and
    /// aspect ratio.
    pub fn update_viewport(&mut self)
        ensures
            final(self)@ == old(self)@.with_viewport(),
    {
        let h = (self.fov_radians * Real::from_raw(HALF_RAW)).tan();
        let viewport_height = Real::from_int(2) * h;
        let viewport_width = self.aspect_ratio * viewport_height;
        let vup = Unit3R::up();
        let u = vup.vec().cross(self.direction.vec()).unit();
        let v = self.direction.vec().cross(u.vec());
        self.horizontal = viewport_width * *u.vec();
        self.vertical = viewport_height * v;
        self.lower_left_corner = self.origin - self.horizontal * Real::from_raw(HALF_RAW)
            - self.vertical * Real::from_raw(HALF_RAW) - *self.direction.vec();
    }

    /// Moves the camera by `distance` against its direction.
    pub fn move_forward(&mut self, distance: Real)
        ensures
            final(self)@ == old(self)@.shifted(old(self)@.direction.spec_scale(distance.neg())),
    {
        self.move_backward(distance.neg());
    }

    /// Moves the camera by `distance` along the width of its viewport.
    pub fn move_right(&mut self, distance: Real)
        ensures
            final(self)@ == old(self)@.shifted(
                old(self)@.horizontal.spec_normalize().spec_scale(distance),
            ),
    {
        let movement = self.horizontal.normalize() * distance;
        self.origin = self.origin + movement;
        self.lower_left_corner = self.lower_left_corner + movement;
    }

    /// Moves the camera by `distance` against the width of its viewport.
    pub fn move_left(&mut self, distance: Real)
        ensures
            final(self)@ == old(self)@.shifted(
                old(self)@.horizontal.spec_normalize().spec_scale(distance.neg()),
            ),
    {
        self.move_right(distance.neg());
    }

    /// Moves the camera by `distance` along its direction.
    pub fn move_backward(&mut self, distance: Real)
        ensures
            final(self)@ == old(self)@.shifted(old(self)@.direction.spec_scale(distance)),
    {
        let movement = *self.direction.vec() * distance;
        self.origin = self.origin + movement;
        self.lower_left_corner = self.lower_left_corner + movement;
    }

    /// Moves the camera down by `distance`.
    pub fn move_down(&mut self, distance: Real)
        ensures
            final(self)@ == old(self)@.shifted(Unit3R::up_vec().spec_scale(distance.neg())),
    {
        self.move_up(distance.neg());
    }

    /// Moves the camera up by `distance`.
    pub fn move_up(&mut self, distance: Real)
        ensures
            final(self)@ == old(self)@.shifted(Unit3R::up_vec().spec_scale(distance)),
    {
        let vup = Unit3R::up();
        let movement = *vup.vec() * distance;
        self.origin = self.origin + movement;
        self.lower_left_corner = self.lower_left_corner + movement;
    }

    /// The ray from the camera through the point of its viewport at `x` of
    /// its width and `y` of its height, both counted from the lower left
    /// corner.
    pub fn ray_at(&self, x: Real, y: Real) -> (ray: Ray)
        ensures
            ray == self@.ray_at(x, y),
            ray.direction@.spec_is_unit() || ray.direction@.spec_is_zero(),
    {
        let h = self.horizontal;
        let v = self.vertical;
        let ray_origin = self.lower_left_corner + h * x + v * y;
        Ray::new(self.origin, (ray_origin - self.origin).unit())
    }
}

} // verus!
