//! Materials: how a surface sends on the light that reaches it.
use vstd::prelude::*;
use core::ops::Neg;
use crate::scalar::Real;
use crate::scalar::ONE_RAW;
use crate::scalar::TWO_RAW;
use crate::scalar::lemma_mul_share;
use crate::scalar::lemma_div_share;
use crate::trig::lemma_powi_share;
use crate::primitives::Vec3R;
use crate::primitives::Unit3R;
use crate::primitives::Ray;
use crate::primitives::Hit;
use crate::random::random_fraction;

verus! {

/// Whether each channel of `color` is a share: a number from zero to one.
pub open spec fn is_share(color: Vec3R) -> bool {
    &&& 0 <= color.x@ <= ONE_RAW
    &&& 0 <= color.y@ <= ONE_RAW
    &&& 0 <= color.z@ <= ONE_RAW
}

/// Whether no channel of `color` is negative.
pub open spec fn is_light(color: Vec3R) -> bool {
    0 <= color.x@ && 0 <= color.y@ && 0 <= color.z@
}

/// Whether `dimmed` is light and has no channel above that of `color`.
pub open spec fn is_dimmed(dimmed: Vec3R, color: Vec3R) -> bool {
    &&& 0 <= dimmed.x@ <= color.x@
    &&& 0 <= dimmed.y@ <= color.y@
    &&& 0 <= dimmed.z@ <= color.z@
}

/// Light that a surface with an albedo of shares sends on is dimmed, channel
/// by channel.
pub proof fn lemma_albedo_dims(color: Vec3R, albedo: Vec3R)
    requires
        is_light(color),
        is_share(albedo),
    ensures
        is_dimmed(color.spec_mul(albedo), color),
{
    lemma_mul_share(color.x, albedo.x);
    lemma_mul_share(color.y, albedo.y);
    lemma_mul_share(color.z, albedo.z);
}

/// A policy for sending on the light that reaches a surface.
pub trait Material {
    /// Whether `bounce` can return `out` for `ray` and `hit`.
    spec fn may_bounce(&self, ray: &Ray, hit: &Hit, out: Ray) -> bool;

    /// The ray that leaves the surface at `hit` when `ray` has reached it. It
    /// starts at the hit, and its direction has the length one, or is the zero
    /// vector where light would leave along no direction at all.
    fn bounce(&self, ray: &Ray, hit: &Hit) -> (out: Ray)
        ensures
            self.may_bounce(ray, hit, out),
            out.origin == hit.point,
            out.direction@.spec_is_unit() || out.direction@.spec_is_zero(),
    ;
}

/// A matt surface: it sends light on in a random direction about the normal.
#[derive(Debug)]
pub struct Diffuse {
    pub albedo: Vec3R,
}

impl Diffuse {
    /// The matt surface with the albedo `albedo`.
    pub fn new(albedo: Vec3R) -> (r: Diffuse)
        ensures
            r.albedo == albedo,
    {
        Diffuse { albedo }
    }

    /// The ray that leaves when `random` is the direction drawn: it starts at
    /// the hit, heads along the normal plus `random`, and carries the incoming
    /// light times the albedo.
    pub open spec fn spec_bounce_with(&self, ray: &Ray, hit: &Hit, random: Unit3R) -> Ray {
        Ray {
            origin: hit.point,
            direction: Unit3R::holding(hit.normal@.spec_add(random@).spec_normalize()),
            color: ray.color.spec_mul(self.albedo),
        }
    }

    /// The ray that leaves when `random` is the direction drawn. Where the
    /// albedo is made of shares, the light that leaves is the incoming light
    /// dimmed.
    pub fn bounce_with(&self, ray: &Ray, hit: &Hit, random: Unit3R) -> (out: Ray)
        ensures
            out == self.spec_bounce_with(ray, hit, random),
            is_light(ray.color) && is_share(self.albedo) ==> is_dimmed(out.color, ray.color),
            !hit.normal@.spec_add(random@).spec_is_zero() ==> out.direction@.spec_is_unit(),
            out.direction@.spec_is_unit() || out.direction@.spec_is_zero(),
    {
        proof {
            if is_light(ray.color) && is_share(self.albedo) {
                lemma_albedo_dims(ray.color, self.albedo);
            }
        }
        Ray::with_color(
            hit.point,
            (*hit.normal.vec() + *random.vec()).unit(),
            ray.color * self.albedo,
        )
    }

    /// Whether `bounce` can return `out`: it leaves for some direction that
    /// can be drawn.
    pub open spec fn may_send(&self, ray: &Ray, hit: &Hit, out: Ray) -> bool {
        exists|random: Unit3R|
            Unit3R::is_drawn(random) && out == #[trigger] self.spec_bounce_with(ray, hit, random)
    }
}

impl Material for Diffuse {
    open spec fn may_bounce(&self, ray: &Ray, hit: &Hit, out: Ray) -> bool {
        self.may_send(ray, hit, out)
    }

    fn bounce(&self, ray: &Ray, hit: &Hit) -> (out: Ray)
        ensures
            self.may_send(ray, hit, out),
            is_light(ray.color) && is_share(self.albedo) ==> is_dimmed(out.color, ray.color),
    {
        let random = Unit3R::random();
        self.bounce_with(ray, hit, random)
    }
}

/// A mirror, more or less blurred: it reflects light about the normal.
#[derive(Debug)]
pub struct Metal {
    pub albedo: Vec3R,
    pub fuzz: Real,
}

impl Metal {
    /// The mirror with the albedo `albedo`, blurred by `fuzz`, which counts as
    /// one where it is above one.
    pub fn new(albedo: Vec3R, fuzz: Real) -> (r: Metal)
        ensures
            r.albedo == albedo,
            r.fuzz == fuzz.min(Real { raw: ONE_RAW }),
    {
        Metal { albedo, fuzz: fuzz.min(Real::one()) }
    }

    /// The direction `incoming` mirrored at the plane with the normal
    /// `normal`: `d - 2 (d . n) n`.
    pub open spec fn spec_reflect(incoming: &Unit3R, normal: &Unit3R) -> Vec3R {
        incoming@.spec_sub(
            normal@.spec_scale_left(Real { raw: TWO_RAW }.mul(incoming@.spec_dot(&normal@))),
        )
    }

    /// The direction `incoming` mirrored at the plane with the normal
    /// `normal`: `d - 2 (d . n) n`.
    #[verifier::when_used_as_spec(spec_reflect)]
    pub fn reflect(incoming: &Unit3R, normal: &Unit3R) -> (r: Vec3R)
        ensures
            r == Metal::spec_reflect(incoming, normal),
    {
        *incoming.vec() - Real::from_int(2) * incoming.vec().dot(normal.vec()) * *normal.vec()
    }

    /// Where light heads when `random` is the direction drawn, not yet of
    /// length one: along the mirrored direction, moved by `random` times the
    /// blur where there is blur.
    pub open spec fn leaving(&self, ray: &Ray, hit: &Hit, random: Unit3R) -> Vec3R {
        let mirrored = Metal::spec_reflect(&ray.direction, &hit.normal);
        if self.fuzz@ > 0 {
            mirrored.spec_add(random@.spec_scale(self.fuzz))
        } else {
            mirrored
        }
    }

    /// The ray that leaves when `random` is the direction drawn: it starts at
    /// the hit, heads along `leaving`, and carries the incoming light times
    /// the albedo where it leaves the surface, and no light where it heads
    /// into it.
    pub open spec fn spec_bounce_with(&self, ray: &Ray, hit: &Hit, random: Unit3R) -> Ray {
        let direction = self.leaving(ray, hit, random).spec_normalize();
        Ray {
            origin: hit.point,
            direction: Unit3R::holding(direction),
            color: if direction.spec_dot(&hit.normal@)@ > 0 {
                ray.color.spec_mul(self.albedo)
            } else {
                Vec3R { x: Real { raw: 0 }, y: Real { raw: 0 }, z: Real { raw: 0 } }
            },
        }
    }

    /// The ray that leaves when `random` is the direction drawn. Without blur
    /// it does not depend on `random`.
    pub fn bounce_with(&self, ray: &Ray, hit: &Hit, random: Unit3R) -> (out: Ray)
        ensures
            out == self.spec_bounce_with(ray, hit, random),
            self.fuzz@ <= 0 ==> out.direction@ == Metal::spec_reflect(
                &ray.direction,
                &hit.normal,
            ).spec_normalize(),
            !self.leaving(ray, hit, random).spec_is_zero() ==> out.direction@.spec_is_unit(),
            out.direction@.spec_is_unit() || out.direction@.spec_is_zero(),
            is_light(ray.color) && is_share(self.albedo) ==> is_dimmed(out.color, ray.color),
    {
        proof {
            if is_light(ray.color) && is_share(self.albedo) {
                lemma_albedo_dims(ray.color, self.albedo);
            }
        }
        let mut reflected = Metal::reflect(&ray.direction, &hit.normal);
        if self.fuzz.gt(Real::zero()) {
            reflected = reflected + *random.vec() * self.fuzz;
        }
        let reflected = reflected.unit();
        let color = if reflected.vec().dot(hit.normal.vec()).gt(Real::zero()) {
            ray.color * self.albedo
        } else {
            Vec3R::new(Real::zero(), Real::zero(), Real::zero())
        };
        Ray::with_color(hit.point, reflected, color)
    }

    /// Whether `bounce` can return `out`: it leaves for some direction, one
    /// that can be drawn where there is blur.
    pub open spec fn may_send(&self, ray: &Ray, hit: &Hit, out: Ray) -> bool {
        exists|random: Unit3R|
            (self.fuzz@ > 0 ==> Unit3R::is_drawn(random)) && out == #[trigger] self.spec_bounce_with(
                ray,
                hit,
                random,
            )
    }
}

impl Material for Metal {
    open spec fn may_bounce(&self, ray: &Ray, hit: &Hit, out: Ray) -> bool {
        self.may_send(ray, hit, out)
    }

    fn bounce(&self, ray: &Ray, hit: &Hit) -> (out: Ray)
        ensures
            self.may_send(ray, hit, out),
    {
        let random = if self.fuzz.gt(Real::zero()) {
            Unit3R::random()
        } else {
            Unit3R::up()
        };
        self.bounce_with(ray, hit, random)
    }
}

/// A clear solid, such as glass: it reflects part of the light and lets the
/// rest through, bent.
#[derive(Debug)]
pub struct Dieletric {
    pub albedo: Vec3R,
    pub refraction: Real,
}

impl Dieletric {
    /// The clear solid with the albedo `albedo` and the index of refraction
    /// `refraction`.
    pub fn new(albedo: Vec3R, refraction: Real) -> (r: Dieletric)
        ensures
            r.albedo == albedo,
            r.refraction == refraction,
    {
        Dieletric { albedo, refraction }
    }

    /// The direction `incoming` bent at the plane with the normal `normal`,
    /// for the ratio `etai_over_etat` of the indices of refraction and the
    /// cosine `cos_theta` of the angle of incidence: the part across the
    /// normal, `eta (d + cos n)`, plus the part along it, of the length that
    /// is left.
    pub open spec fn spec_refract(
        incoming: &Unit3R,
        normal: &Unit3R,
        etai_over_etat: Real,
        cos_theta: Real,
    ) -> Vec3R {
        let perpendicular = incoming@.spec_add(
            normal@.spec_scale_left(cos_theta),
        ).spec_scale_left(etai_over_etat);
        let parallel = normal@.spec_scale_left(
            Real { raw: ONE_RAW }.sub(perpendicular.spec_length_squared()).abs().sqrt().neg(),
        );
        perpendicular.spec_add(parallel)
    }

    /// The direction `incoming` bent at the plane with the normal `normal`.
    #[verifier::when_used_as_spec(spec_refract)]
    pub fn refract(
        incoming: &Unit3R,
        normal: &Unit3R,
        etai_over_etat: Real,
        cos_theta: Real,
    ) -> (r: Vec3R)
        ensures
            r == Dieletric::spec_refract(incoming, normal, etai_over_etat, cos_theta),
    {
        let incoming = *incoming.vec();
        let normal = *normal.vec();
        let perpendicular = etai_over_etat * (incoming + cos_theta * normal);
        let parallel = (Real::one() - perpendicular.length_squared()).abs().sqrt().neg() * normal;
        perpendicular + parallel
    }

    /// The share of the light that is reflected, by Schlick's estimate:
    /// `r0 + (1 - r0) (1 - cosine)^5` with `r0 = ((1 - n) / (1 + n))^2`.
    pub open spec fn spec_reflection_probability(cosine: Real, refraction: Real) -> Real {
        let one = Real { raw: ONE_RAW };
        let r0 = one.sub(refraction).div(one.add(refraction));
        let r02 = r0.mul(r0);
        r02.add(one.sub(r02).mul(one.sub(cosine).powi(5)))
    }

    /// The share of the light that is reflected, by Schlick's estimate.
    #[verifier::when_used_as_spec(spec_reflection_probability)]
    pub fn reflection_probability(cosine: Real, refraction: Real) -> (r: Real)
        ensures
            r == Dieletric::spec_reflection_probability(cosine, refraction),
    {
        let r0 = (Real::one() - refraction) / (Real::one() + refraction);
        let r02 = r0 * r0;
        r02 + (Real::one() - r02) * (Real::one() - cosine).powi(5)
    }

    /// The ratio of the indices of refraction that light meets at `hit`: one
    /// over the solid's index on the way in, the index on the way out.
    pub open spec fn ratio(&self, hit: &Hit) -> Real {
        if hit.is_front_face {
            Real { raw: ONE_RAW }.div(self.refraction)
        } else {
            self.refraction
        }
    }

    /// The cosine of the angle between the reversed ray and the normal.
    pub open spec fn cos_theta(ray: &Ray, hit: &Hit) -> Real {
        ray.direction@.spec_neg().spec_dot(&hit.normal@)
    }

    /// Whether the light is reflected when `draw` is the number drawn: where
    /// the law of refraction has no solution, or where the share that is
    /// reflected is above `draw`.
    pub open spec fn reflects(&self, ray: &Ray, hit: &Hit, draw: Real) -> bool {
        let one = Real { raw: ONE_RAW };
        let cos_min = Dieletric::cos_theta(ray, hit).min(one);
        let sin_theta = one.sub(cos_min.mul(cos_min)).sqrt();
        self.ratio(hit).mul(sin_theta)@ > ONE_RAW || Dieletric::spec_reflection_probability(
            cos_min,
            self.ratio(hit),
        )@ > draw@
    }

    /// Where light heads when `draw` is the number drawn, not yet of length
    /// one: along the mirrored direction where the light is reflected, and
    /// along the bent direction where it is not.
    pub open spec fn leaving(&self, ray: &Ray, hit: &Hit, draw: Real) -> Vec3R {
        if self.reflects(ray, hit, draw) {
            Metal::spec_reflect(&ray.direction, &hit.normal)
        } else {
            Dieletric::spec_refract(
                &ray.direction,
                &hit.normal,
                self.ratio(hit),
                Dieletric::cos_theta(ray, hit),
            )
        }
    }

    /// The ray that leaves when `draw` is the number drawn: it starts at the
    /// hit, carries the incoming light times the albedo, and heads along
    /// `leaving`.
    pub open spec fn spec_bounce_with(&self, ray: &Ray, hit: &Hit, draw: Real) -> Ray {
        Ray {
            origin: hit.point,
            direction: Unit3R::holding(self.leaving(ray, hit, draw).spec_normalize()),
            color: ray.color.spec_mul(self.albedo),
        }
    }

    /// The ray that leaves when `draw` is the number drawn.
    pub fn bounce_with(&self, ray: &Ray, hit: &Hit, draw: Real) -> (out: Ray)
        ensures
            out == self.spec_bounce_with(ray, hit, draw),
            is_light(ray.color) && is_share(self.albedo) ==> is_dimmed(out.color, ray.color),
            !self.leaving(ray, hit, draw).spec_is_zero() ==> out.direction@.spec_is_unit(),
            out.direction@.spec_is_unit() || out.direction@.spec_is_zero(),
    {
        proof {
            if is_light(ray.color) && is_share(self.albedo) {
                lemma_albedo_dims(ray.color, self.albedo);
            }
        }
        let etai_over_etat = if hit.is_front_face {
            Real::one() / self.refraction
        } else {
            self.refraction
        };
        let cos_theta = ray.direction.vec().neg().dot(hit.normal.vec());
        let cos_theta_min = cos_theta.min(Real::one());
        let sin_theta = (Real::one() - cos_theta_min * cos_theta_min).sqrt();
        if (etai_over_etat * sin_theta).gt(Real::one()) || Dieletric::reflection_probability(
            cos_theta_min,
            etai_over_etat,
        ).gt(draw) {
            let reflected = Metal::reflect(&ray.direction, &hit.normal);
            Ray::with_color(hit.point, reflected.unit(), ray.color * self.albedo)
        } else {
            let refracted = Dieletric::refract(
                &ray.direction,
                &hit.normal,
                etai_over_etat,
                cos_theta,
            ).unit();
            Ray::with_color(hit.point, refracted, ray.color * self.albedo)
        }
    }

    /// Whether `bounce` can return `out`: it leaves for some number drawn
    /// from zero up to one.
    pub open spec fn may_send(&self, ray: &Ray, hit: &Hit, out: Ray) -> bool {
        exists|draw: Real|
            0 <= draw@ < ONE_RAW && out == #[trigger] self.spec_bounce_with(ray, hit, draw)
    }
}

impl Material for Dieletric {
    open spec fn may_bounce(&self, ray: &Ray, hit: &Hit, out: Ray) -> bool {
        self.may_send(ray, hit, out)
    }

    fn bounce(&self, ray: &Ray, hit: &Hit) -> (out: Ray)
        ensures
            self.may_send(ray, hit, out),
    {
        let draw = random_fraction();
        self.bounce_with(ray, hit, draw)
    }
}

/// One of the materials.
#[derive(Debug)]
pub enum DesMaterial {
    Diffuse(Diffuse),
    Metal(Metal),
    Dieletric(Dieletric),
}

impl DesMaterial {
    /// The albedo of the material: the share of the light, channel by
    /// channel, that it sends on.
    pub open spec fn tint(&self) -> Vec3R {
        match self {
            DesMaterial::Diffuse(mat) => mat.albedo,
            DesMaterial::Metal(mat) => mat.albedo,
            DesMaterial::Dieletric(mat) => mat.albedo,
        }
    }

    /// Whether `bounce` can return `out`: what the material inside allows.
    pub open spec fn may_send(&self, ray: &Ray, hit: &Hit, out: Ray) -> bool {
        match self {
            DesMaterial::Diffuse(mat) => mat.may_send(ray, hit, out),
            DesMaterial::Metal(mat) => mat.may_send(ray, hit, out),
            DesMaterial::Dieletric(mat) => mat.may_send(ray, hit, out),
        }
    }
}

impl Material for DesMaterial {
    open spec fn may_bounce(&self, ray: &Ray, hit: &Hit, out: Ray) -> bool {
        self.may_send(ray, hit, out)
    }

    fn bounce(&self, ray: &Ray, hit: &Hit) -> (out: Ray)
        ensures
            self.may_send(ray, hit, out),
    {
        match self {
            DesMaterial::Diffuse(mat) => mat.bounce(ray, hit),
            DesMaterial::Metal(mat) => mat.bounce(ray, hit),
            DesMaterial::Dieletric(mat) => mat.bounce(ray, hit),
        }
    }
}

/// Whatever a material with an albedo of shares sends on carries no more
/// light than came in, and heads along a direction of the length one, or
/// along none.
pub proof fn lemma_sent_is_dimmed(material: DesMaterial, ray: &Ray, hit: &Hit, out: Ray)
    requires
        material.may_send(ray, hit, out),
        is_light(ray.color),
        is_share(material.tint()),
    ensures
        is_dimmed(out.color, ray.color),
        out.direction@.spec_is_unit() || out.direction@.spec_is_zero(),
        out.origin == hit.point,
{
    lemma_albedo_dims(ray.color, material.tint());
    match material {
        DesMaterial::Diffuse(mat) => {
            let random = choose|random: Unit3R|
                Unit3R::is_drawn(random) && out == #[trigger] mat.spec_bounce_with(ray, hit, random);
            let heading = hit.normal@.spec_add(random@);
            heading.lemma_normalize_is_unit_or_zero();
            Unit3R::lemma_holding_view(heading.spec_normalize());
        },
        DesMaterial::Metal(mat) => {
            let random = choose|random: Unit3R|
                (mat.fuzz@ > 0 ==> Unit3R::is_drawn(random)) && out
                    == #[trigger] mat.spec_bounce_with(ray, hit, random);
            let heading = mat.leaving(ray, hit, random);
            heading.lemma_normalize_is_unit_or_zero();
            Unit3R::lemma_holding_view(heading.spec_normalize());
        },
        DesMaterial::Dieletric(mat) => {
            let draw = choose|draw: Real|
                0 <= draw@ < ONE_RAW && out == #[trigger] mat.spec_bounce_with(ray, hit, draw);
            let heading = mat.leaving(ray, hit, draw);
            heading.lemma_normalize_is_unit_or_zero();
            Unit3R::lemma_holding_view(heading.spec_normalize());
        },
    }
}

/// The share of the light that a clear solid reflects is a share: for a
/// cosine from zero to one and an index of refraction that is not negative,
/// Schlick's estimate lies between zero and one.
pub proof fn lemma_reflection_is_share(cosine: Real, refraction: Real)
    requires
        0 <= cosine@ <= ONE_RAW,
        0 <= refraction@,
    ensures
        0 <= Dieletric::spec_reflection_probability(cosine, refraction)@ <= ONE_RAW,
{
    let one = Real { raw: ONE_RAW };
    let above = one.add(refraction);
    let below = one.sub(refraction);
    let r0 = below.div(above);
    assert(crate::scalar::magnitude(below@) <= above@);
    lemma_div_share(Real { raw: crate::scalar::magnitude(below@) as i64 }, above);
    assert(-ONE_RAW <= r0@ <= ONE_RAW);
    let r02 = r0.mul(r0);
    lemma_mul_share(Real { raw: crate::scalar::magnitude(r0@) as i64 }, Real {
        raw: crate::scalar::magnitude(r0@) as i64,
    });
    assert(0 <= r02@ <= ONE_RAW);
    let rest = one.sub(r02);
    let power = one.sub(cosine).spec_powi(5);
    lemma_powi_share(one.sub(cosine), 5);
    lemma_mul_share(rest, power);
}

} // verus!
