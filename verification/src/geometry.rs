//! Shapes: where a ray meets them, and what the surface is like there.
use vstd::prelude::*;
use core::ops::Neg;
use crate::scalar::Real;
use crate::scalar::MAX_RAW;
use crate::scalar::lemma_sqrt_bounds;
use crate::primitives::Vec3R;
use crate::primitives::Point2R;
use crate::primitives::Point3R;
use crate::primitives::Unit3R;
use crate::primitives::Ray;
use crate::primitives::Hit;

verus! {

/// Whether `t` answers a search between `t_min` and `t_max`: it is either the
/// largest number, which says that nothing was met, or a distance strictly
/// between the two bounds.
pub open spec fn answers_search(t: Real, t_min: Real, t_max: Real) -> bool {
    t@ == MAX_RAW || t_min@ < t@ < t_max@
}

/// A shape that rays can meet.
pub trait Geometry {
    /// The distance that `intersect` returns.
    spec fn spec_intersect(&self, ray: &Ray, t_min: Real, t_max: Real) -> Real;

    /// The hit that `hit` returns.
    spec fn spec_hit(&self, ray: &Ray, time: Real) -> Hit;

    /// The distance along `ray` at which it meets the shape nearest, among the
    /// distances strictly between `t_min` and `t_max`; the largest number where
    /// it does not meet the shape there.
    fn intersect(&self, ray: &Ray, t_min: Real, t_max: Real) -> (t: Real)
        ensures
            t == self.spec_intersect(ray, t_min, t_max),
            answers_search(t, t_min, t_max),
    ;

    /// The point that `ray` reaches at the distance `time`, with the surface's
    /// normal there, turned against the ray.
    fn hit(&self, ray: &Ray, time: Real) -> (h: Hit)
        ensures
            h == self.spec_hit(ray, time),
    ;
}

/// A sphere.
#[derive(Debug)]
pub struct Sphere {
    pub center: Point3R,
    pub radius: Real,
}

impl Sphere {
    /// The sphere round `center` with the radius `radius`.
    pub fn new(center: Point3R, radius: Real) -> (r: Sphere)
        ensures
            r.center == center,
            r.radius == radius,
    {
        Sphere { center, radius }
    }

    /// Half of the linear coefficient of the equation for the distances at
    /// which `ray` meets the sphere: the ray's direction has length one, so the
    /// equation is `t * t + 2 * h * t + c = 0`.
    pub open spec fn half_b(&self, ray: &Ray) -> Real {
        ray.origin.spec_sub(self.center).spec_dot(&ray.direction@)
    }

    /// The constant coefficient of that equation.
    pub open spec fn c(&self, ray: &Ray) -> Real {
        let diff = ray.origin.spec_sub(self.center);
        diff.spec_dot(&diff).sub(self.radius.mul(self.radius))
    }

    /// The quarter of the discriminant of that equation.
    pub open spec fn discriminant(&self, ray: &Ray) -> Real {
        self.half_b(ray).mul(self.half_b(ray)).sub(self.c(ray))
    }

    /// The smaller root of that equation, where the discriminant is positive.
    pub open spec fn near_root(&self, ray: &Ray) -> Real {
        self.half_b(ray).neg().sub(self.discriminant(ray).sqrt())
    }

    /// The larger root of that equation, where the discriminant is positive.
    pub open spec fn far_root(&self, ray: &Ray) -> Real {
        self.half_b(ray).neg().add(self.discriminant(ray).sqrt())
    }

    /// The normal of the sphere at `point`, pointing outward and not yet of
    /// length one.
    pub open spec fn outward(&self, point: Point3R) -> Vec3R {
        point.spec_sub(self.center).spec_shrink(self.radius)
    }

    /// The near root where it lies strictly between the bounds, else the far
    /// root where that does, else the largest number; the largest number too
    /// where the discriminant is not positive.
    pub open spec fn meeting(&self, ray: &Ray, t_min: Real, t_max: Real) -> Real {
        if self.discriminant(ray)@ > 0 {
            if t_min@ < self.near_root(ray)@ < t_max@ {
                self.near_root(ray)
            } else if t_min@ < self.far_root(ray)@ < t_max@ {
                self.far_root(ray)
            } else {
                Real { raw: MAX_RAW }
            }
        } else {
            Real { raw: MAX_RAW }
        }
    }

    /// Whether `ray` arrives from outside at the distance `time`: it does
    /// where it does not run along the outward normal there.
    pub open spec fn arrives_outside(&self, ray: &Ray, time: Real) -> bool {
        ray.direction@.spec_dot(&self.outward(ray.spec_at(time)))@ <= 0
    }

    /// The normal that faces `ray` at the distance `time`, not yet of length
    /// one: the outward normal where the ray arrives from outside, and the
    /// outward normal turned round where it arrives from inside.
    pub open spec fn facing(&self, ray: &Ray, time: Real) -> Vec3R {
        if self.arrives_outside(ray, time) {
            self.outward(ray.spec_at(time))
        } else {
            self.outward(ray.spec_at(time)).spec_neg()
        }
    }

    /// The point of the ray at `time`, the side from which the ray arrives,
    /// and the direction of the normal that faces the ray.
    pub open spec fn hit_at(&self, ray: &Ray, time: Real) -> Hit {
        Hit {
            point: ray.spec_at(time),
            normal: Unit3R::holding(Unit3R::normalized_vec(self.facing(ray, time))),
            is_front_face: self.arrives_outside(ray, time),
        }
    }
}

impl Geometry for Sphere {
    open spec fn spec_intersect(&self, ray: &Ray, t_min: Real, t_max: Real) -> Real {
        self.meeting(ray, t_min, t_max)
    }

    open spec fn spec_hit(&self, ray: &Ray, time: Real) -> Hit {
        self.hit_at(ray, time)
    }

    fn intersect(&self, ray: &Ray, t_min: Real, t_max: Real) -> (t: Real)
        ensures
            t == self.meeting(ray, t_min, t_max),
    {
        let diff = ray.origin - self.center;
        let h = diff.dot(ray.direction.vec());
        let c = diff.dot(&diff) - self.radius * self.radius;
        let discriminant = h * h - c;
        if discriminant.gt(Real::zero()) {
            let root = discriminant.sqrt();
            let near = h.neg() - root;
            if near.lt(t_max) && near.gt(t_min) {
                return near;
            }
            let far = h.neg() + root;
            if far.lt(t_max) && far.gt(t_min) {
                return far;
            }
            Real::infinity()
        } else {
            Real::infinity()
        }
    }

    fn hit(&self, ray: &Ray, time: Real) -> (h: Hit)
        ensures
            h == self.hit_at(ray, time),
            !self.facing(ray, time).spec_is_zero() ==> Unit3R::is_near_unit(h.normal@),
    {
        let point = ray.at(time);
        let outward = (point - self.center) / self.radius;
        let is_front_face = ray.direction.vec().dot(&outward).le(Real::zero());
        let normal = Unit3R::normalized(
            if is_front_face {
                outward
            } else {
                outward.neg()
            },
        );
        Hit { point, normal, is_front_face }
    }
}

/// A box, held by one corner and the extent of its base. Rays do not meet it.
#[derive(Debug)]
pub struct Cube {
    pub origin: Point3R,
    pub corner: Point2R,
}

impl Cube {
    /// The box at `origin` with the base `corner`.
    pub fn new(origin: Point3R, corner: Point2R) -> (r: Cube)
        ensures
            r.origin == origin,
            r.corner == corner,
    {
        Cube { origin, corner }
    }

    /// The largest number: no ray meets a box.
    pub open spec fn meeting(&self, ray: &Ray, t_min: Real, t_max: Real) -> Real {
        Real { raw: MAX_RAW }
    }

    /// The ray's own start and direction, as seen from outside.
    pub open spec fn hit_at(&self, ray: &Ray, time: Real) -> Hit {
        Hit { point: ray.origin, normal: ray.direction, is_front_face: true }
    }
}

impl Geometry for Cube {
    open spec fn spec_intersect(&self, ray: &Ray, t_min: Real, t_max: Real) -> Real {
        self.meeting(ray, t_min, t_max)
    }

    open spec fn spec_hit(&self, ray: &Ray, time: Real) -> Hit {
        self.hit_at(ray, time)
    }

    fn intersect(&self, ray: &Ray, t_min: Real, t_max: Real) -> (t: Real)
        ensures
            t == self.meeting(ray, t_min, t_max),
    {
        Real::infinity()
    }

    fn hit(&self, ray: &Ray, time: Real) -> (h: Hit)
        ensures
            h == self.hit_at(ray, time),
    {
        Hit { point: ray.origin, normal: ray.direction, is_front_face: true }
    }
}

/// A line segment with a width. Rays do not meet it.
#[derive(Debug)]
pub struct Line {
    pub start: Point3R,
    pub end: Point3R,
    pub width: Real,
}

impl Line {
    /// The segment from `start` to `end` with the width `width`.
    pub fn new(start: Point3R, end: Point3R, width: Real) -> (r: Line)
        ensures
            r.start == start,
            r.end == end,
            r.width == width,
    {
        Line { start, end, width }
    }

    /// The largest number: no ray meets a segment.
    pub open spec fn meeting(&self, ray: &Ray, t_min: Real, t_max: Real) -> Real {
        Real { raw: MAX_RAW }
    }

    /// The ray's own start and direction, as seen from outside.
    pub open spec fn hit_at(&self, ray: &Ray, time: Real) -> Hit {
        Hit { point: ray.origin, normal: ray.direction, is_front_face: true }
    }
}

impl Geometry for Line {
    open spec fn spec_intersect(&self, ray: &Ray, t_min: Real, t_max: Real) -> Real {
        self.meeting(ray, t_min, t_max)
    }

    open spec fn spec_hit(&self, ray: &Ray, time: Real) -> Hit {
        self.hit_at(ray, time)
    }

    fn intersect(&self, ray: &Ray, t_min: Real, t_max: Real) -> (t: Real)
        ensures
            t == self.meeting(ray, t_min, t_max),
    {
        Real::infinity()
    }

    fn hit(&self, ray: &Ray, time: Real) -> (h: Hit)
        ensures
            h == self.hit_at(ray, time),
    {
        Hit { point: ray.origin, normal: ray.direction, is_front_face: true }
    }
}

/// One of the shapes.
#[derive(Debug)]
pub enum GeometryType {
    Sphere(Sphere),
    Line(Line),
    Cube(Cube),
}

impl GeometryType {
    /// What the shape inside gives.
    pub open spec fn meeting(&self, ray: &Ray, t_min: Real, t_max: Real) -> Real {
        match self {
            GeometryType::Sphere(geo) => geo.meeting(ray, t_min, t_max),
            GeometryType::Line(geo) => geo.meeting(ray, t_min, t_max),
            GeometryType::Cube(geo) => geo.meeting(ray, t_min, t_max),
        }
    }

    /// What the shape inside gives.
    pub open spec fn hit_at(&self, ray: &Ray, time: Real) -> Hit {
        match self {
            GeometryType::Sphere(geo) => geo.hit_at(ray, time),
            GeometryType::Line(geo) => geo.hit_at(ray, time),
            GeometryType::Cube(geo) => geo.hit_at(ray, time),
        }
    }
}

impl Geometry for GeometryType {
    open spec fn spec_intersect(&self, ray: &Ray, t_min: Real, t_max: Real) -> Real {
        self.meeting(ray, t_min, t_max)
    }

    open spec fn spec_hit(&self, ray: &Ray, time: Real) -> Hit {
        self.hit_at(ray, time)
    }

    fn intersect(&self, ray: &Ray, t_min: Real, t_max: Real) -> (t: Real)
        ensures
            t == self.meeting(ray, t_min, t_max),
    {
        match self {
            GeometryType::Sphere(geo) => geo.intersect(ray, t_min, t_max),
            GeometryType::Line(geo) => geo.intersect(ray, t_min, t_max),
            GeometryType::Cube(geo) => geo.intersect(ray, t_min, t_max),
        }
    }

    fn hit(&self, ray: &Ray, time: Real) -> (h: Hit)
        ensures
            h == self.hit_at(ray, time),
    {
        match self {
            GeometryType::Sphere(geo) => geo.hit(ray, time),
            GeometryType::Line(geo) => geo.hit(ray, time),
            GeometryType::Cube(geo) => geo.hit(ray, time),
        }
    }
}

/// A search with a nearer upper bound finds the same meeting as a search
/// without one where that meeting lies below the bound, and finds nothing
/// where it does not.
pub proof fn lemma_meeting_narrowed(shape: GeometryType, ray: &Ray, t_min: Real, limit: Real)
    ensures
        shape.meeting(ray, t_min, Real { raw: MAX_RAW })@ < limit@ ==> shape.meeting(
            ray,
            t_min,
            limit,
        ) == shape.meeting(ray, t_min, Real { raw: MAX_RAW }),
        shape.meeting(ray, t_min, Real { raw: MAX_RAW })@ >= limit@ ==> shape.meeting(
            ray,
            t_min,
            limit,
        )@ == MAX_RAW,
{
    match shape {
        GeometryType::Sphere(geo) => {
            lemma_sqrt_bounds(geo.discriminant(ray));
            assert(geo.near_root(ray)@ <= geo.far_root(ray)@);
        },
        GeometryType::Line(geo) => {},
        GeometryType::Cube(geo) => {},
    }
}

} // verus!
