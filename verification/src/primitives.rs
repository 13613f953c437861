//! Vectors, points, unit vectors, rays and hits.
use vstd::prelude::*;
use crate::scalar::Real;
use crate::scalar::ONE_RAW;
use crate::scalar::TWO_PI_RAW;
use crate::scalar::magnitude;
use crate::norm::unit_part;
use crate::norm::unit_parts;
use crate::norm::squared_length;
use crate::norm::lemma_unit_parts;
use crate::random::random_below;

verus! {

/// A point of the plane.
pub type Point2R = Vec2R;

/// A point of space.
pub type Point3R = Vec3R;

/// A direction of the plane.
pub type Normal2 = Vec2R;

/// A direction of space.
pub type Normal3 = Vec3R;

/// The smaller of two numbers; the second where neither is.
pub fn min(a: Real, b: Real) -> (r: Real)
    ensures
        r == a.min(b),
{
    if a.lt(b) {
        a
    } else {
        b
    }
}

/// The larger of two numbers; the second where neither is.
pub fn max(a: Real, b: Real) -> (r: Real)
    ensures
        r == a.max(b),
{
    if a.gt(b) {
        a
    } else {
        b
    }
}

/// The square of a raw value of at most one in magnitude is, divided by one,
/// what the product of the number with itself is.
proof fn lemma_square_is_small(a: int)
    requires
        magnitude(a) <= ONE_RAW,
    ensures
        0 <= (a * a) / (ONE_RAW as int) <= ONE_RAW,
        magnitude(a) * magnitude(a) == a * a,
{
    assert(magnitude(a) * magnitude(a) == a * a) by (nonlinear_arith)
        requires
            magnitude(a) == a || magnitude(a) == -a,
    ;
    assert(0 <= a * a <= ONE_RAW * ONE_RAW) by (nonlinear_arith)
        requires
            -ONE_RAW <= a <= ONE_RAW,
    ;
    assert(ONE_RAW * ONE_RAW == 0x1_0000_0000_0000_0000int) by (nonlinear_arith)
        requires
            ONE_RAW == 0x1_0000_0000,
    ;
}

/// The square of a raw value beyond one in magnitude is, divided by one,
/// beyond one.
proof fn lemma_square_is_large(a: int)
    ensures
        0 <= (magnitude(a) * magnitude(a)) / (ONE_RAW as int),
        magnitude(a) > ONE_RAW ==> (magnitude(a) * magnitude(a)) / (ONE_RAW as int) > ONE_RAW,
{
    let m = magnitude(a);
    assert(m * m >= 0) by (nonlinear_arith);
    if m > ONE_RAW {
        assert(m * m >= (ONE_RAW + 1) * ONE_RAW) by (nonlinear_arith)
            requires
                m >= ONE_RAW + 1,
                ONE_RAW == 0x1_0000_0000,
        ;
        assert(((ONE_RAW + 1) * ONE_RAW) / (ONE_RAW as int) == ONE_RAW + 1) by (nonlinear_arith)
            requires
                ONE_RAW == 0x1_0000_0000,
        ;
        vstd::arithmetic::div_mod::lemma_div_is_ordered(
            (ONE_RAW + 1) * ONE_RAW,
            m * m,
            ONE_RAW as int,
        );
    }
}

/// A vector of the plane.
#[derive(Clone, Copy, Debug, PartialEq, Eq, Structural)]
pub struct Vec2R {
    pub x: Real,
    pub y: Real,
}

impl Vec2R {
    /// The index of the first component.
    pub const X: usize = 0;

    /// The index of the second component.
    pub const Y: usize = 1;

    /// The vector with these components.
    pub fn new(x: Real, y: Real) -> (r: Vec2R)
        ensures
            r == (Vec2R { x, y }),
    {
        Vec2R { x, y }
    }

    /// This vector with a third component added.
    pub fn with_z(&self, z: Real) -> (r: Vec3R)
        ensures
            r == (Vec3R { x: self.x, y: self.y, z }),
    {
        Vec3R { x: self.x, y: self.y, z }
    }

    /// The square of the length.
    pub open spec fn spec_length_squared(&self) -> Real {
        self.x.mul(self.x).add(self.y.mul(self.y))
    }

    /// The square of the length.
    #[verifier::when_used_as_spec(spec_length_squared)]
    pub fn length_squared(&self) -> (r: Real)
        ensures
            r == self.spec_length_squared(),
    {
        self.x * self.x + self.y * self.y
    }

    /// The length.
    pub open spec fn spec_length(&self) -> Real {
        self.spec_length_squared().sqrt()
    }

    /// The length.
    #[verifier::when_used_as_spec(spec_length)]
    pub fn length(&self) -> (r: Real)
        ensures
            r == self.spec_length(),
    {
        self.length_squared().sqrt()
    }

    /// The inner product.
    pub open spec fn spec_dot(&self, other: &Vec2R) -> Real {
        self.x.mul(other.x).add(self.y.mul(other.y))
    }

    /// The inner product.
    #[verifier::when_used_as_spec(spec_dot)]
    pub fn dot(&self, other: &Vec2R) -> (r: Real)
        ensures
            r == self.spec_dot(other),
    {
        self.x * other.x + self.y * other.y
    }

    /// This vector brought to length one, as the vector of space with a third
    /// component of zero is; the zero vector stays as it is.
    pub open spec fn spec_normalize(&self) -> Vec2R {
        let unit = Vec3R { x: self.x, y: self.y, z: Real { raw: 0 } }.spec_normalize();
        Vec2R { x: unit.x, y: unit.y }
    }

    /// This vector brought to length one, as the vector of space with a third
    /// component of zero is; the zero vector stays as it is.
    #[verifier::when_used_as_spec(spec_normalize)]
    pub fn normalize(&self) -> (r: Vec2R)
        ensures
            r == self.spec_normalize(),
    {
        let unit = self.with_z(Real::zero()).normalize();
        Vec2R { x: unit.x, y: unit.y }
    }

    /// The smallest component.
    pub open spec fn spec_min_component(&self) -> Real {
        self.x.min(self.y)
    }

    /// The smallest component.
    #[verifier::when_used_as_spec(spec_min_component)]
    pub fn min_component(&self) -> (r: Real)
        ensures
            r == self.spec_min_component(),
    {
        min(self.x, self.y)
    }

    /// The largest component.
    pub open spec fn spec_max_component(&self) -> Real {
        self.x.max(self.y)
    }

    /// The largest component.
    #[verifier::when_used_as_spec(spec_max_component)]
    pub fn max_component(&self) -> (r: Real)
        ensures
            r == self.spec_max_component(),
    {
        max(self.x, self.y)
    }

    /// The larger of each pair of components.
    pub fn max(&self, other: &Vec2R) -> (r: Vec2R)
        ensures
            r == (Vec2R { x: self.x.max(other.x), y: self.y.max(other.y) }),
    {
        Vec2R::new(max(self.x, other.x), max(self.y, other.y))
    }

    /// The smaller of each pair of components.
    pub fn min(&self, other: &Vec2R) -> (r: Vec2R)
        ensures
            r == (Vec2R { x: self.x.min(other.x), y: self.y.min(other.y) }),
    {
        Vec2R::new(min(self.x, other.x), min(self.y, other.y))
    }

    /// The vector with its components exchanged.
    pub fn swap(&self) -> (r: Vec2R)
        ensures
            r == (Vec2R { x: self.y, y: self.x }),
    {
        Vec2R::new(self.y, self.x)
    }

    /// The distance to `other`.
    pub fn distance(&self, other: &Vec2R) -> (r: Real)
        ensures
            r == other.spec_sub(*self).spec_length(),
    {
        (*other - *self).length()
    }

    /// The square of the distance to `other`.
    pub fn distance_squared(&self, other: &Vec2R) -> (r: Real)
        ensures
            r == other.spec_sub(*self).spec_length_squared(),
    {
        (*other - *self).length_squared()
    }

    /// The point at `t` on the way from this vector to `other`: this vector at
    /// zero, `other` at one.
    pub open spec fn spec_lerp(&self, other: &Vec2R, t: Real) -> Vec2R {
        self.spec_scale_left(Real { raw: ONE_RAW }.sub(t)).spec_add(other.spec_scale_left(t))
    }

    /// The point at `t` on the way from this vector to `other`: this vector at
    /// zero, `other` at one.
    #[verifier::when_used_as_spec(spec_lerp)]
    pub fn lerp(&self, other: &Vec2R, t: Real) -> (r: Vec2R)
        ensures
            r == self.spec_lerp(other, t),
    {
        (Real::one() - t) * *self + t * *other
    }

    /// The vector of the components' distances from zero.
    pub fn abs(&self) -> (r: Vec2R)
        ensures
            r == (Vec2R { x: self.x.abs(), y: self.y.abs() }),
    {
        Vec2R::new(self.x.abs(), self.y.abs())
    }

    /// The vector of the components rounded down.
    pub fn floor(&self) -> (r: Vec2R)
        ensures
            r == (Vec2R { x: self.x.floor(), y: self.y.floor() }),
    {
        Vec2R::new(self.x.floor(), self.y.floor())
    }

    /// The vector of the components rounded up.
    pub fn ceil(&self) -> (r: Vec2R)
        ensures
            r == (Vec2R { x: self.x.ceil(), y: self.y.ceil() }),
    {
        Vec2R::new(self.x.ceil(), self.y.ceil())
    }

    /// The component at `i`: the first at zero, the second at any other index.
    pub open spec fn spec_component(&self, i: usize) -> Real {
        if i == 0 {
            self.x
        } else {
            self.y
        }
    }

    /// The component at `i`: the first at zero, the second at any other index.
    #[verifier::when_used_as_spec(spec_component)]
    pub fn component(&self, i: usize) -> (r: Real)
        ensures
            r == self.spec_component(i),
    {
        if i == 0 {
            self.x
        } else {
            self.y
        }
    }
}

impl Default for Vec2R {
    /// The zero vector.
    fn default() -> (r: Vec2R)
        ensures
            r == (Vec2R { x: Real { raw: 0 }, y: Real { raw: 0 } }),
    {
        Vec2R::new(Real::zero(), Real::zero())
    }
}

impl From<Vec3R> for Vec2R {
    /// The first two components of `src`.
    fn from(src: Vec3R) -> (r: Vec2R) {
        Vec2R::new(src.x, src.y)
    }
}

impl vstd::std_specs::convert::FromSpecImpl<Vec3R> for Vec2R {
    open spec fn obeys_from_spec() -> bool {
        true
    }

    open spec fn from_spec(src: Vec3R) -> Vec2R {
        Vec2R { x: src.x, y: src.y }
    }
}

/// A vector of space.
#[derive(Clone, Copy, Debug, PartialEq, Eq, Structural)]
pub struct Vec3R {
    pub x: Real,
    pub y: Real,
    pub z: Real,
}

impl Vec3R {
    /// The index of the first component.
    pub const X: usize = 0;

    /// The index of the second component.
    pub const Y: usize = 1;

    /// The index of the third component.
    pub const Z: usize = 2;

    /// The vector with these components.
    pub fn new(x: Real, y: Real, z: Real) -> (r: Vec3R)
        ensures
            r == (Vec3R { x, y, z }),
    {
        Vec3R { x, y, z }
    }

    /// The square of the length.
    pub open spec fn spec_length_squared(&self) -> Real {
        self.x.mul(self.x).add(self.y.mul(self.y)).add(self.z.mul(self.z))
    }

    /// The square of the length.
    #[verifier::when_used_as_spec(spec_length_squared)]
    pub fn length_squared(&self) -> (r: Real)
        ensures
            r == self.spec_length_squared(),
    {
        self.x * self.x + self.y * self.y + self.z * self.z
    }

    /// The length.
    pub open spec fn spec_length(&self) -> Real {
        self.spec_length_squared().sqrt()
    }

    /// The length.
    #[verifier::when_used_as_spec(spec_length)]
    pub fn length(&self) -> (r: Real)
        ensures
            r == self.spec_length(),
    {
        self.length_squared().sqrt()
    }

    /// The inner product.
    pub open spec fn spec_dot(&self, other: &Vec3R) -> Real {
        self.x.mul(other.x).add(self.y.mul(other.y)).add(self.z.mul(other.z))
    }

    /// The inner product.
    #[verifier::when_used_as_spec(spec_dot)]
    pub fn dot(&self, other: &Vec3R) -> (r: Real)
        ensures
            r == self.spec_dot(other),
    {
        self.x * other.x + self.y * other.y + self.z * other.z
    }

    /// The vector product.
    pub open spec fn spec_cross(&self, other: &Vec3R) -> Vec3R {
        Vec3R {
            x: self.y.mul(other.z).sub(self.z.mul(other.y)),
            y: self.z.mul(other.x).sub(self.x.mul(other.z)),
            z: self.x.mul(other.y).sub(self.y.mul(other.x)),
        }
    }

    /// The vector product.
    #[verifier::when_used_as_spec(spec_cross)]
    pub fn cross(&self, other: &Vec3R) -> (r: Vec3R)
        ensures
            r == self.spec_cross(other),
    {
        Vec3R::new(
            self.y * other.z - self.z * other.y,
            self.z * other.x - self.x * other.z,
            self.x * other.y - self.y * other.x,
        )
    }

    /// This vector brought to length one: each component divided by the
    /// vector's length, with no loss of precision for a short vector; the
    /// zero vector stays as it is.
    pub open spec fn spec_normalize(&self) -> Vec3R {
        Vec3R {
            x: Real { raw: unit_part(self.x@, self.x@, self.y@, self.z@) as i64 },
            y: Real { raw: unit_part(self.y@, self.x@, self.y@, self.z@) as i64 },
            z: Real { raw: unit_part(self.z@, self.x@, self.y@, self.z@) as i64 },
        }
    }

    /// This vector brought to length one: each component divided by the
    /// vector's length, with no loss of precision for a short vector; the
    /// zero vector stays as it is.
    #[verifier::when_used_as_spec(spec_normalize)]
    pub fn normalize(&self) -> (r: Vec3R)
        ensures
            r == self.spec_normalize(),
            !self.spec_is_zero() ==> r.spec_is_unit(),
            self.spec_is_zero() ==> r.spec_is_zero(),
    {
        proof {
            if !self.spec_is_zero() {
                self.lemma_normalize_is_unit();
            }
        }
        let parts = unit_parts(self.x.raw, self.y.raw, self.z.raw);
        Vec3R { x: Real { raw: parts.0 }, y: Real { raw: parts.1 }, z: Real { raw: parts.2 } }
    }

    /// Whether every component is zero.
    pub open spec fn spec_is_zero(&self) -> bool {
        self.x@ == 0 && self.y@ == 0 && self.z@ == 0
    }

    /// Whether every component is zero.
    #[verifier::when_used_as_spec(spec_is_zero)]
    pub fn is_zero(&self) -> (r: bool)
        ensures
            r == self.spec_is_zero(),
    {
        self.x.raw == 0 && self.y.raw == 0 && self.z.raw == 0
    }

    /// Whether the vector has the length one as nearly as a normalized vector
    /// has: its squared length is at most one, and less by nine units at most.
    pub open spec fn spec_is_unit(&self) -> bool {
        ONE_RAW - 9 <= self.spec_length_squared()@ <= ONE_RAW
    }

    /// A vector that is not zero has, brought to length one, the length one:
    /// its squared length is at most one, and less by nine units at most.
    pub proof fn lemma_normalize_is_unit(&self)
        requires
            !self.spec_is_zero(),
        ensures
            self.spec_normalize().spec_is_unit(),
    {
        lemma_unit_parts(self.x@, self.y@, self.z@);
        let u = self.spec_normalize();
        let a = unit_part(self.x@, self.x@, self.y@, self.z@);
        let b = unit_part(self.y@, self.x@, self.y@, self.z@);
        let c = unit_part(self.z@, self.x@, self.y@, self.z@);
        lemma_square_is_small(a);
        lemma_square_is_small(b);
        lemma_square_is_small(c);
        assert(u.x.mul(u.x)@ == (a * a) / (ONE_RAW as int));
        assert(u.y.mul(u.y)@ == (b * b) / (ONE_RAW as int));
        assert(u.z.mul(u.z)@ == (c * c) / (ONE_RAW as int));
        assert(u.spec_length_squared()@ == squared_length(a, b, c));
    }

    /// A vector brought to length one has the length one, or is the zero
    /// vector, which stays as it is.
    pub proof fn lemma_normalize_is_unit_or_zero(&self)
        ensures
            self.spec_normalize().spec_is_unit() || self.spec_normalize().spec_is_zero(),
    {
        if !self.spec_is_zero() {
            self.lemma_normalize_is_unit();
        }
    }

    /// A vector of the length one has no component beyond one.
    pub proof fn lemma_unit_is_bounded(&self)
        requires
            self.spec_is_unit() || self.spec_is_zero(),
        ensures
            -ONE_RAW <= self.x@ <= ONE_RAW,
            -ONE_RAW <= self.y@ <= ONE_RAW,
            -ONE_RAW <= self.z@ <= ONE_RAW,
    {
        lemma_square_is_large(self.x@);
        lemma_square_is_large(self.y@);
        lemma_square_is_large(self.z@);
    }

    /// The direction of this vector.
    pub fn unit(&self) -> (r: Unit3R)
        ensures
            r == Unit3R::holding(self.spec_normalize()),
            r@ == self.spec_normalize(),
            !self.spec_is_zero() ==> r@.spec_is_unit(),
            self.spec_is_zero() ==> r@.spec_is_zero(),
    {
        proof {
            if !self.spec_is_zero() {
                self.lemma_normalize_is_unit();
            }
        }
        Unit3R::from(self)
    }

    /// The smallest component.
    pub open spec fn spec_min_component(&self) -> Real {
        self.x.min(self.y).min(self.z)
    }

    /// The smallest component.
    #[verifier::when_used_as_spec(spec_min_component)]
    pub fn min_component(&self) -> (r: Real)
        ensures
            r == self.spec_min_component(),
    {
        min(min(self.x, self.y), self.z)
    }

    /// The largest component.
    pub open spec fn spec_max_component(&self) -> Real {
        self.x.max(self.y).max(self.z)
    }

    /// The largest component.
    #[verifier::when_used_as_spec(spec_max_component)]
    pub fn max_component(&self) -> (r: Real)
        ensures
            r == self.spec_max_component(),
    {
        max(max(self.x, self.y), self.z)
    }

    /// The distance to `other`.
    pub fn distance(&self, other: &Vec3R) -> (r: Real)
        ensures
            r == self.spec_sub(*other).spec_length(),
    {
        (*self - *other).length()
    }

    /// The square of the distance to `other`.
    pub fn distance_squared(&self, other: &Vec3R) -> (r: Real)
        ensures
            r == self.spec_sub(*other).spec_length_squared(),
    {
        (*self - *other).length_squared()
    }

    /// The larger of each pair of components.
    pub fn max(&self, other: &Vec3R) -> (r: Vec3R)
        ensures
            r == (Vec3R {
                x: self.x.max(other.x),
                y: self.y.max(other.y),
                z: self.z.max(other.z),
            }),
    {
        Vec3R::new(max(self.x, other.x), max(self.y, other.y), max(self.z, other.z))
    }

    /// The smaller of each pair of components.
    pub fn min(&self, other: &Vec3R) -> (r: Vec3R)
        ensures
            r == (Vec3R {
                x: self.x.min(other.x),
                y: self.y.min(other.y),
                z: self.z.min(other.z),
            }),
    {
        Vec3R::new(min(self.x, other.x), min(self.y, other.y), min(self.z, other.z))
    }

    /// The component at `i`: the first at zero, the second at one, the third
    /// at any other index.
    pub open spec fn spec_component(&self, i: usize) -> Real {
        if i == 0 {
            self.x
        } else if i == 1 {
            self.y
        } else {
            self.z
        }
    }

    /// The component at `i`: the first at zero, the second at one, the third
    /// at any other index.
    #[verifier::when_used_as_spec(spec_component)]
    pub fn component(&self, i: usize) -> (r: Real)
        ensures
            r == self.spec_component(i),
    {
        if i == 0 {
            self.x
        } else if i == 1 {
            self.y
        } else {
            self.z
        }
    }

    /// The vector made of the components at the three indices.
    pub fn permute(&self, x: usize, y: usize, z: usize) -> (r: Vec3R)
        ensures
            r == (Vec3R { x: self.component(x), y: self.component(y), z: self.component(z) }),
    {
        Vec3R::new(self.component(x), self.component(y), self.component(z))
    }

    /// The point at `t` on the way from this vector to `other`: this vector at
    /// zero, `other` at one.
    pub open spec fn spec_lerp(&self, other: &Vec3R, t: Real) -> Vec3R {
        self.spec_scale_left(Real { raw: ONE_RAW }.sub(t)).spec_add(other.spec_scale_left(t))
    }

    /// The point at `t` on the way from this vector to `other`: this vector at
    /// zero, `other` at one.
    #[verifier::when_used_as_spec(spec_lerp)]
    pub fn lerp(&self, other: &Vec3R, t: Real) -> (r: Vec3R)
        ensures
            r == self.spec_lerp(other, t),
    {
        (Real::one() - t) * *self + t * *other
    }

    /// The vector of the components' distances from zero.
    pub fn abs(&self) -> (r: Vec3R)
        ensures
            r == (Vec3R { x: self.x.abs(), y: self.y.abs(), z: self.z.abs() }),
    {
        Vec3R::new(self.x.abs(), self.y.abs(), self.z.abs())
    }

    /// The vector of the components rounded down.
    pub fn floor(&self) -> (r: Vec3R)
        ensures
            r == (Vec3R { x: self.x.floor(), y: self.y.floor(), z: self.z.floor() }),
    {
        Vec3R::new(self.x.floor(), self.y.floor(), self.z.floor())
    }

    /// The vector of the components rounded up.
    pub fn ceil(&self) -> (r: Vec3R)
        ensures
            r == (Vec3R { x: self.x.ceil(), y: self.y.ceil(), z: self.z.ceil() }),
    {
        Vec3R::new(self.x.ceil(), self.y.ceil(), self.z.ceil())
    }
}

impl Default for Vec3R {
    /// The zero vector.
    fn default() -> (r: Vec3R)
        ensures
            r == (Vec3R { x: Real { raw: 0 }, y: Real { raw: 0 }, z: Real { raw: 0 } }),
    {
        Vec3R::new(Real::zero(), Real::zero(), Real::zero())
    }
}

impl From<Vec2R> for Vec3R {
    /// `src` with a third component of zero.
    fn from(src: Vec2R) -> (r: Vec3R) {
        Vec3R::new(src.x, src.y, Real::zero())
    }
}

impl vstd::std_specs::convert::FromSpecImpl<Vec2R> for Vec3R {
    open spec fn obeys_from_spec() -> bool {
        true
    }

    open spec fn from_spec(src: Vec2R) -> Vec3R {
        Vec3R { x: src.x, y: src.y, z: Real { raw: 0 } }
    }
}

impl Vec2R {
    /// The sum, component by component.
    pub open spec fn spec_add(self, rhs: Vec2R) -> Vec2R {
        Vec2R { x: self.x.add(rhs.x), y: self.y.add(rhs.y) }
    }
}

impl core::ops::Add for Vec2R {
    type Output = Vec2R;

    /// The sum, component by component.
    fn add(self, rhs: Vec2R) -> (r: Vec2R) {
        Vec2R { x: self.x + rhs.x, y: self.y + rhs.y }
    }
}

impl vstd::std_specs::ops::AddSpecImpl for Vec2R {
    open spec fn obeys_add_spec() -> bool {
        true
    }

    open spec fn add_req(self, rhs: Vec2R) -> bool {
        true
    }

    open spec fn add_spec(self, rhs: Vec2R) -> Vec2R {
        self.spec_add(rhs)
    }
}

impl Vec2R {
    /// The difference, component by component.
    pub open spec fn spec_sub(self, rhs: Vec2R) -> Vec2R {
        Vec2R { x: self.x.sub(rhs.x), y: self.y.sub(rhs.y) }
    }
}

impl core::ops::Sub for Vec2R {
    type Output = Vec2R;

    /// The difference, component by component.
    fn sub(self, rhs: Vec2R) -> (r: Vec2R) {
        Vec2R { x: self.x - rhs.x, y: self.y - rhs.y }
    }
}

impl vstd::std_specs::ops::SubSpecImpl for Vec2R {
    open spec fn obeys_sub_spec() -> bool {
        true
    }

    open spec fn sub_req(self, rhs: Vec2R) -> bool {
        true
    }

    open spec fn sub_spec(self, rhs: Vec2R) -> Vec2R {
        self.spec_sub(rhs)
    }
}

impl Vec2R {
    /// The product, component by component.
    pub open spec fn spec_mul(self, rhs: Vec2R) -> Vec2R {
        Vec2R { x: self.x.mul(rhs.x), y: self.y.mul(rhs.y) }
    }
}

impl core::ops::Mul for Vec2R {
    type Output = Vec2R;

    /// The product, component by component.
    fn mul(self, rhs: Vec2R) -> (r: Vec2R) {
        Vec2R { x: self.x * rhs.x, y: self.y * rhs.y }
    }
}

impl vstd::std_specs::ops::MulSpecImpl for Vec2R {
    open spec fn obeys_mul_spec() -> bool {
        true
    }

    open spec fn mul_req(self, rhs: Vec2R) -> bool {
        true
    }

    open spec fn mul_spec(self, rhs: Vec2R) -> Vec2R {
        self.spec_mul(rhs)
    }
}

impl Vec2R {
    /// The quotient, component by component.
    pub open spec fn spec_div(self, rhs: Vec2R) -> Vec2R {
        Vec2R { x: self.x.div(rhs.x), y: self.y.div(rhs.y) }
    }
}

impl core::ops::Div for Vec2R {
    type Output = Vec2R;

    /// The quotient, component by component.
    fn div(self, rhs: Vec2R) -> (r: Vec2R) {
        Vec2R { x: self.x / rhs.x, y: self.y / rhs.y }
    }
}

impl vstd::std_specs::ops::DivSpecImpl for Vec2R {
    open spec fn obeys_div_spec() -> bool {
        true
    }

    open spec fn div_req(self, rhs: Vec2R) -> bool {
        true
    }

    open spec fn div_spec(self, rhs: Vec2R) -> Vec2R {
        self.spec_div(rhs)
    }
}

impl Vec2R {
    /// The vector scaled by `k`.
    pub open spec fn spec_scale(self, k: Real) -> Vec2R {
        Vec2R { x: self.x.mul(k), y: self.y.mul(k) }
    }
}

impl core::ops::Mul<Real> for Vec2R {
    type Output = Vec2R;

    /// The vector scaled by `k`.
    fn mul(self, k: Real) -> (r: Vec2R) {
        Vec2R { x: self.x * k, y: self.y * k }
    }
}

impl vstd::std_specs::ops::MulSpecImpl<Real> for Vec2R {
    open spec fn obeys_mul_spec() -> bool {
        true
    }

    open spec fn mul_req(self, k: Real) -> bool {
        true
    }

    open spec fn mul_spec(self, k: Real) -> Vec2R {
        self.spec_scale(k)
    }
}

impl Vec2R {
    /// The vector divided by `k`.
    pub open spec fn spec_shrink(self, k: Real) -> Vec2R {
        Vec2R { x: self.x.div(k), y: self.y.div(k) }
    }
}

impl core::ops::Div<Real> for Vec2R {
    type Output = Vec2R;

    /// The vector divided by `k`.
    fn div(self, k: Real) -> (r: Vec2R) {
        Vec2R { x: self.x / k, y: self.y / k }
    }
}

impl vstd::std_specs::ops::DivSpecImpl<Real> for Vec2R {
    open spec fn obeys_div_spec() -> bool {
        true
    }

    open spec fn div_req(self, k: Real) -> bool {
        true
    }

    open spec fn div_spec(self, k: Real) -> Vec2R {
        self.spec_shrink(k)
    }
}

impl core::ops::AddAssign for Vec2R {
    /// Puts `self + rhs` in the place of `self`.
    fn add_assign(&mut self, rhs: Vec2R)
        ensures
            *final(self) == old(self).spec_add(rhs),
    {
        *self = *self + rhs;
    }
}

impl core::ops::SubAssign for Vec2R {
    /// Puts `self - rhs` in the place of `self`.
    fn sub_assign(&mut self, rhs: Vec2R)
        ensures
            *final(self) == old(self).spec_sub(rhs),
    {
        *self = *self - rhs;
    }
}

impl core::ops::MulAssign for Vec2R {
    /// Puts `self * rhs` in the place of `self`.
    fn mul_assign(&mut self, rhs: Vec2R)
        ensures
            *final(self) == old(self).spec_mul(rhs),
    {
        *self = *self * rhs;
    }
}

impl core::ops::DivAssign for Vec2R {
    /// Puts `self / rhs` in the place of `self`.
    fn div_assign(&mut self, rhs: Vec2R)
        ensures
            *final(self) == old(self).spec_div(rhs),
    {
        *self = *self / rhs;
    }
}

impl core::ops::MulAssign<Real> for Vec2R {
    /// Puts `self * k` in the place of `self`.
    fn mul_assign(&mut self, k: Real)
        ensures
            *final(self) == old(self).spec_scale(k),
    {
        *self = *self * k;
    }
}

impl core::ops::DivAssign<Real> for Vec2R {
    /// Puts `self / k` in the place of `self`.
    fn div_assign(&mut self, k: Real)
        ensures
            *final(self) == old(self).spec_shrink(k),
    {
        *self = *self / k;
    }
}

impl core::ops::Index<usize> for Vec2R {
    type Output = Real;

    /// The component at `i`, as `component` gives it.
    fn index(&self, i: usize) -> (r: &Real)
        ensures
            *r == self.spec_component(i),
    {
        if i == 0 {
            &self.x
        } else {
            &self.y
        }
    }
}

impl core::ops::Mul<Vec2R> for Real {
    type Output = Vec2R;

    /// The vector `v` with each component multiplied from the left.
    fn mul(self, v: Vec2R) -> (r: Vec2R) {
        Vec2R { x: self * v.x, y: self * v.y }
    }
}

impl vstd::std_specs::ops::MulSpecImpl<Vec2R> for Real {
    open spec fn obeys_mul_spec() -> bool {
        true
    }

    open spec fn mul_req(self, v: Vec2R) -> bool {
        true
    }

    open spec fn mul_spec(self, v: Vec2R) -> Vec2R {
        v.spec_scale_left(self)
    }
}

impl Vec2R {
    /// The vector with each component multiplied by `k` from the left.
    pub open spec fn spec_scale_left(self, k: Real) -> Vec2R {
        Vec2R { x: k.mul(self.x), y: k.mul(self.y) }
    }

    /// The vector that points the other way.
    pub open spec fn spec_neg(self) -> Vec2R {
        Vec2R { x: self.x.neg(), y: self.y.neg() }
    }
}

impl core::ops::Neg for Vec2R {
    type Output = Vec2R;

    /// The vector that points the other way.
    fn neg(self) -> (r: Vec2R) {
        Vec2R { x: self.x.neg(), y: self.y.neg() }
    }
}

impl vstd::std_specs::ops::NegSpecImpl for Vec2R {
    open spec fn obeys_neg_spec() -> bool {
        true
    }

    open spec fn neg_req(self) -> bool {
        true
    }

    open spec fn neg_spec(self) -> Vec2R {
        self.spec_neg()
    }
}

impl Vec3R {
    /// The sum, component by component.
    pub open spec fn spec_add(self, rhs: Vec3R) -> Vec3R {
        Vec3R { x: self.x.add(rhs.x), y: self.y.add(rhs.y), z: self.z.add(rhs.z) }
    }
}

impl core::ops::Add for Vec3R {
    type Output = Vec3R;

    /// The sum, component by component.
    fn add(self, rhs: Vec3R) -> (r: Vec3R) {
        Vec3R { x: self.x + rhs.x, y: self.y + rhs.y, z: self.z + rhs.z }
    }
}

impl vstd::std_specs::ops::AddSpecImpl for Vec3R {
    open spec fn obeys_add_spec() -> bool {
        true
    }

    open spec fn add_req(self, rhs: Vec3R) -> bool {
        true
    }

    open spec fn add_spec(self, rhs: Vec3R) -> Vec3R {
        self.spec_add(rhs)
    }
}

impl Vec3R {
    /// The difference, component by component.
    pub open spec fn spec_sub(self, rhs: Vec3R) -> Vec3R {
        Vec3R { x: self.x.sub(rhs.x), y: self.y.sub(rhs.y), z: self.z.sub(rhs.z) }
    }
}

impl core::ops::Sub for Vec3R {
    type Output = Vec3R;

    /// The difference, component by component.
    fn sub(self, rhs: Vec3R) -> (r: Vec3R) {
        Vec3R { x: self.x - rhs.x, y: self.y - rhs.y, z: self.z - rhs.z }
    }
}

impl vstd::std_specs::ops::SubSpecImpl for Vec3R {
    open spec fn obeys_sub_spec() -> bool {
        true
    }

    open spec fn sub_req(self, rhs: Vec3R) -> bool {
        true
    }

    open spec fn sub_spec(self, rhs: Vec3R) -> Vec3R {
        self.spec_sub(rhs)
    }
}

impl Vec3R {
    /// The product, component by component.
    pub open spec fn spec_mul(self, rhs: Vec3R) -> Vec3R {
        Vec3R { x: self.x.mul(rhs.x), y: self.y.mul(rhs.y), z: self.z.mul(rhs.z) }
    }
}

impl core::ops::Mul for Vec3R {
    type Output = Vec3R;

    /// The product, component by component.
    fn mul(self, rhs: Vec3R) -> (r: Vec3R) {
        Vec3R { x: self.x * rhs.x, y: self.y * rhs.y, z: self.z * rhs.z }
    }
}

impl vstd::std_specs::ops::MulSpecImpl for Vec3R {
    open spec fn obeys_mul_spec() -> bool {
        true
    }

    open spec fn mul_req(self, rhs: Vec3R) -> bool {
        true
    }

    open spec fn mul_spec(self, rhs: Vec3R) -> Vec3R {
        self.spec_mul(rhs)
    }
}

impl Vec3R {
    /// The quotient, component by component.
    pub open spec fn spec_div(self, rhs: Vec3R) -> Vec3R {
        Vec3R { x: self.x.div(rhs.x), y: self.y.div(rhs.y), z: self.z.div(rhs.z) }
    }
}

impl core::ops::Div for Vec3R {
    type Output = Vec3R;

    /// The quotient, component by component.
    fn div(self, rhs: Vec3R) -> (r: Vec3R) {
        Vec3R { x: self.x / rhs.x, y: self.y / rhs.y, z: self.z / rhs.z }
    }
}

impl vstd::std_specs::ops::DivSpecImpl for Vec3R {
    open spec fn obeys_div_spec() -> bool {
        true
    }

    open spec fn div_req(self, rhs: Vec3R) -> bool {
        true
    }

    open spec fn div_spec(self, rhs: Vec3R) -> Vec3R {
        self.spec_div(rhs)
    }
}

impl Vec3R {
    /// The vector scaled by `k`.
    pub open spec fn spec_scale(self, k: Real) -> Vec3R {
        Vec3R { x: self.x.mul(k), y: self.y.mul(k), z: self.z.mul(k) }
    }
}

impl core::ops::Mul<Real> for Vec3R {
    type Output = Vec3R;

    /// The vector scaled by `k`.
    fn mul(self, k: Real) -> (r: Vec3R) {
        Vec3R { x: self.x * k, y: self.y * k, z: self.z * k }
    }
}

impl vstd::std_specs::ops::MulSpecImpl<Real> for Vec3R {
    open spec fn obeys_mul_spec() -> bool {
        true
    }

    open spec fn mul_req(self, k: Real) -> bool {
        true
    }

    open spec fn mul_spec(self, k: Real) -> Vec3R {
        self.spec_scale(k)
    }
}

impl Vec3R {
    /// The vector divided by `k`.
    pub open spec fn spec_shrink(self, k: Real) -> Vec3R {
        Vec3R { x: self.x.div(k), y: self.y.div(k), z: self.z.div(k) }
    }
}

impl core::ops::Div<Real> for Vec3R {
    type Output = Vec3R;

    /// The vector divided by `k`.
    fn div(self, k: Real) -> (r: Vec3R) {
        Vec3R { x: self.x / k, y: self.y / k, z: self.z / k }
    }
}

impl vstd::std_specs::ops::DivSpecImpl<Real> for Vec3R {
    open spec fn obeys_div_spec() -> bool {
        true
    }

    open spec fn div_req(self, k: Real) -> bool {
        true
    }

    open spec fn div_spec(self, k: Real) -> Vec3R {
        self.spec_shrink(k)
    }
}

impl core::ops::AddAssign for Vec3R {
    /// Puts `self + rhs` in the place of `self`.
    fn add_assign(&mut self, rhs: Vec3R)
        ensures
            *final(self) == old(self).spec_add(rhs),
    {
        *self = *self + rhs;
    }
}

impl core::ops::SubAssign for Vec3R {
    /// Puts `self - rhs` in the place of `self`.
    fn sub_assign(&mut self, rhs: Vec3R)
        ensures
            *final(self) == old(self).spec_sub(rhs),
    {
        *self = *self - rhs;
    }
}

impl core::ops::MulAssign for Vec3R {
    /// Puts `self * rhs` in the place of `self`.
    fn mul_assign(&mut self, rhs: Vec3R)
        ensures
            *final(self) == old(self).spec_mul(rhs),
    {
        *self = *self * rhs;
    }
}

impl core::ops::DivAssign for Vec3R {
    /// Puts `self / rhs` in the place of `self`.
    fn div_assign(&mut self, rhs: Vec3R)
        ensures
            *final(self) == old(self).spec_div(rhs),
    {
        *self = *self / rhs;
    }
}

impl core::ops::MulAssign<Real> for Vec3R {
    /// Puts `self * k` in the place of `self`.
    fn mul_assign(&mut self, k: Real)
        ensures
            *final(self) == old(self).spec_scale(k),
    {
        *self = *self * k;
    }
}

impl core::ops::DivAssign<Real> for Vec3R {
    /// Puts `self / k` in the place of `self`.
    fn div_assign(&mut self, k: Real)
        ensures
            *final(self) == old(self).spec_shrink(k),
    {
        *self = *self / k;
    }
}

impl core::ops::Index<usize> for Vec3R {
    type Output = Real;

    /// The component at `i`, as `component` gives it.
    fn index(&self, i: usize) -> (r: &Real)
        ensures
            *r == self.spec_component(i),
    {
        if i == 0 {
            &self.x
        } else if i == 1 {
            &self.y
        } else {
            &self.z
        }
    }
}

impl core::ops::Mul<Vec3R> for Real {
    type Output = Vec3R;

    /// The vector `v` with each component multiplied from the left.
    fn mul(self, v: Vec3R) -> (r: Vec3R) {
        Vec3R { x: self * v.x, y: self * v.y, z: self * v.z }
    }
}

impl vstd::std_specs::ops::MulSpecImpl<Vec3R> for Real {
    open spec fn obeys_mul_spec() -> bool {
        true
    }

    open spec fn mul_req(self, v: Vec3R) -> bool {
        true
    }

    open spec fn mul_spec(self, v: Vec3R) -> Vec3R {
        v.spec_scale_left(self)
    }
}

impl Vec3R {
    /// The vector with each component multiplied by `k` from the left.
    pub open spec fn spec_scale_left(self, k: Real) -> Vec3R {
        Vec3R { x: k.mul(self.x), y: k.mul(self.y), z: k.mul(self.z) }
    }

    /// The vector that points the other way.
    pub open spec fn spec_neg(self) -> Vec3R {
        Vec3R { x: self.x.neg(), y: self.y.neg(), z: self.z.neg() }
    }
}

impl core::ops::Neg for Vec3R {
    type Output = Vec3R;

    /// The vector that points the other way.
    fn neg(self) -> (r: Vec3R) {
        Vec3R { x: self.x.neg(), y: self.y.neg(), z: self.z.neg() }
    }
}

impl vstd::std_specs::ops::NegSpecImpl for Vec3R {
    open spec fn obeys_neg_spec() -> bool {
        true
    }

    open spec fn neg_req(self) -> bool {
        true
    }

    open spec fn neg_spec(self) -> Vec3R {
        self.spec_neg()
    }
}

/// The raw value of the tolerance within which the squared length of a vector
/// counts as one: a hundred units.
pub const UNIT_TOLERANCE_RAW: i64 = 100;

/// A direction of space: a vector that was made by normalizing, or that was
/// found to be of length one within the tolerance.
#[derive(Clone, Copy, Debug, PartialEq, Eq, Structural)]
pub struct Unit3R(Vec3R);

impl View for Unit3R {
    type V = Vec3R;

    closed spec fn view(&self) -> Vec3R {
        self.0
    }
}

impl Unit3R {
    /// The direction that holds the vector `v` as it is.
    pub closed spec fn holding(v: Vec3R) -> Unit3R {
        Unit3R(v)
    }

    /// A direction shows the vector that it holds.
    pub proof fn lemma_holding_view(v: Vec3R)
        ensures
            Unit3R::holding(v)@ == v,
    {
    }

    /// A direction is the one that holds its vector.
    pub proof fn lemma_view_holding(self)
        ensures
            Unit3R::holding(self@) == self,
    {
    }

    /// The direction that holds the vector `v` as it is.
    fn hold(v: Vec3R) -> (r: Unit3R)
        ensures
            r == Unit3R::holding(v),
            r@ == v,
    {
        Unit3R(v)
    }

    /// Whether the squared length of `src` is one within the tolerance.
    pub open spec fn is_near_unit(src: Vec3R) -> bool {
        src.spec_length_squared().sub(Real { raw: ONE_RAW }).abs()@ <= UNIT_TOLERANCE_RAW
    }

    /// `src` itself where its squared length is one within the tolerance, and
    /// `src` divided by its length otherwise.
    pub open spec fn normalized_vec(src: Vec3R) -> Vec3R {
        if Unit3R::is_near_unit(src) {
            src
        } else {
            src.spec_normalize()
        }
    }

    /// The direction that points up: (0, 1, 0).
    pub open spec fn up_vec() -> Vec3R {
        Vec3R { x: Real { raw: 0 }, y: Real { raw: ONE_RAW }, z: Real { raw: 0 } }
    }

    /// The direction that points up: (0, 1, 0).
    pub fn up() -> (r: Unit3R)
        ensures
            r == Unit3R::holding(Unit3R::up_vec()),
            r@ == Unit3R::up_vec(),
    {
        Unit3R::hold(Vec3R { x: Real::zero(), y: Real::one(), z: Real::zero() })
    }

    /// The direction of `src`: `src` itself where its squared length is one
    /// within the tolerance, and `src` divided by its length otherwise.
    pub fn normalized(src: Vec3R) -> (r: Unit3R)
        ensures
            r == Unit3R::holding(Unit3R::normalized_vec(src)),
            r@ == Unit3R::normalized_vec(src),
            !src.spec_is_zero() ==> Unit3R::is_near_unit(r@),
            src.spec_is_zero() ==> r@.spec_is_zero(),
    {
        if (src.length_squared() - Real::one()).abs().gt(Real::from_raw(UNIT_TOLERANCE_RAW)) {
            src.unit()
        } else {
            Unit3R::hold(src)
        }
    }

    /// The direction of the point of the unit sphere at the angle `angle`
    /// round the third axis and at the height `height` along it: the point
    /// itself where it has the length one within the tolerance.
    pub open spec fn spec_on_sphere(angle: Real, height: Real) -> Vec3R {
        let radius = Real { raw: ONE_RAW }.sub(height.mul(height)).sqrt();
        Unit3R::normalized_vec(
            Vec3R { x: radius.mul(angle.cos()), y: radius.mul(angle.sin()), z: height },
        )
    }

    /// The direction of the point of the unit sphere at the angle `angle`
    /// round the third axis and at the height `height` along it.
    pub fn on_sphere(angle: Real, height: Real) -> (r: Unit3R)
        ensures
            r == Unit3R::holding(Unit3R::spec_on_sphere(angle, height)),
            r@ == Unit3R::spec_on_sphere(angle, height),
            height@ != 0 ==> Unit3R::is_near_unit(r@),
    {
        let radius = (Real::one() - height * height).sqrt();
        Unit3R::normalized(Vec3R::new(radius * angle.cos(), radius * angle.sin(), height))
    }

    /// Whether `random` can return `u`: it is the point of the unit sphere at
    /// some angle within one turn and at some height from minus one up to one.
    pub open spec fn is_drawn(u: Unit3R) -> bool {
        exists|angle: Real, height: Real|
            0 <= angle@ < TWO_PI_RAW && -ONE_RAW <= height@ < ONE_RAW && u
                == Unit3R::holding(#[trigger] Unit3R::spec_on_sphere(angle, height))
    }

    /// A random direction: the point of the unit sphere at a random angle
    /// within one turn and at a random height from minus one up to one.
    pub fn random() -> (r: Unit3R)
        ensures
            Unit3R::is_drawn(r),
    {
        let angle = Real { raw: random_below(TWO_PI_RAW as u64) as i64 };
        let height = Real { raw: random_below(2 * (ONE_RAW as u64)) as i64 - ONE_RAW };
        Unit3R::on_sphere(angle, height)
    }

    /// The vector of this direction.
    pub fn vec(&self) -> (r: &Vec3R)
        ensures
            *r == self@,
    {
        &self.0
    }

    /// The first component.
    pub fn x(&self) -> (r: Real)
        ensures
            r == self@.x,
    {
        self.0.x
    }

    /// The second component.
    pub fn y(&self) -> (r: Real)
        ensures
            r == self@.y,
    {
        self.0.y
    }

    /// The third component.
    pub fn z(&self) -> (r: Real)
        ensures
            r == self@.z,
    {
        self.0.z
    }

    /// The opposite direction.
    pub fn reversed(&self) -> (r: Unit3R)
        ensures
            r == Unit3R::holding(self@.spec_neg()),
            r@ == self@.spec_neg(),
    {
        Unit3R::hold(Vec3R { x: self.0.x.neg(), y: self.0.y.neg(), z: self.0.z.neg() })
    }
}

impl core::ops::Neg for Unit3R {
    type Output = Unit3R;

    /// The opposite direction.
    fn neg(self) -> (r: Unit3R) {
        self.reversed()
    }
}

impl vstd::std_specs::ops::NegSpecImpl for Unit3R {
    open spec fn obeys_neg_spec() -> bool {
        true
    }

    open spec fn neg_req(self) -> bool {
        true
    }

    open spec fn neg_spec(self) -> Unit3R {
        Unit3R::holding(self@.spec_neg())
    }
}

impl From<&Vec3R> for Unit3R {
    /// The direction of `src`.
    fn from(src: &Vec3R) -> (r: Unit3R)
        ensures
            !src.spec_is_zero() ==> r@.spec_is_unit(),
            src.spec_is_zero() ==> r@.spec_is_zero(),
    {
        Unit3R(src.normalize())
    }
}

impl vstd::std_specs::convert::FromSpecImpl<&Vec3R> for Unit3R {
    open spec fn obeys_from_spec() -> bool {
        true
    }

    open spec fn from_spec(src: &Vec3R) -> Unit3R {
        Unit3R::holding(src.spec_normalize())
    }
}

/// The raw value of the most that a colour channel can carry: one.
pub const FULL_RAW: i64 = ONE_RAW;

/// A ray: where it starts, where it heads, and the share of the light, channel
/// by channel, that still travels along it.
#[derive(Debug)]
pub struct Ray {
    pub origin: Point3R,
    pub direction: Unit3R,
    pub color: Vec3R,
}

impl Ray {
    /// The ray from `origin` along `direction` that carries all the light.
    pub fn new(origin: Point3R, direction: Unit3R) -> (r: Ray)
        ensures
            r.origin == origin,
            r.direction == direction,
            r.color == (Vec3R {
                x: Real { raw: FULL_RAW },
                y: Real { raw: FULL_RAW },
                z: Real { raw: FULL_RAW },
            }),
    {
        Ray { origin, direction, color: Vec3R::new(Real::one(), Real::one(), Real::one()) }
    }

    /// The ray from `origin` along `direction` that carries `color`.
    pub fn with_color(origin: Point3R, direction: Unit3R, color: Vec3R) -> (r: Ray)
        ensures
            r.origin == origin,
            r.direction == direction,
            r.color == color,
    {
        Ray { origin, direction, color }
    }

    /// The point that the ray reaches at the distance `time`.
    pub open spec fn spec_at(&self, time: Real) -> Point3R {
        self.origin.spec_add(self.direction@.spec_scale(time))
    }

    /// The point that the ray reaches at the distance `time`.
    #[verifier::when_used_as_spec(spec_at)]
    pub fn at(&self, time: Real) -> (r: Point3R)
        ensures
            r == self.spec_at(time),
    {
        self.origin + *self.direction.vec() * time
    }
}

/// Where a ray met a surface.
pub struct Hit {
    pub point: Point3R,
    pub normal: Unit3R,
    pub is_front_face: bool,
}

} // verus!
