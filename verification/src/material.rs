//! Materials: what a surface does to the light that reaches it.

use vstd::prelude::*;
use std::rc::Rc;
use crate::fixed::clamp;
use crate::fixed::lemma_div_is_fraction;
use crate::fixed::lemma_mul_by_fraction;
use crate::fixed::lemma_mul_by_one;
use crate::fixed::lemma_sqrt_at_most_one;
use crate::fixed::lemma_square_not_negative;
use crate::fixed::lemma_mul_by_zero;
use crate::fixed::Fixed;
use crate::fixed::SCALE;
use crate::hittable::HitRecord;
use crate::random::rand_with_range;
use crate::random::random_double;
use crate::random::RandomSource;
use crate::ray::Ray;
use crate::texture::CheckerTexture;
use crate::texture::SolidColor;
use crate::texture::Texture;
use crate::trig::TWO_PI_RAW;
use crate::vec3::refract;
use crate::vec3::Color;
use crate::vec3::Vec3;

verus! {

/// What a scattering surface sends on: the share of the light that
/// survives, channel by channel, and the ray it leaves on.
#[derive(Clone, Copy, PartialEq, Eq, Structural, Debug)]
pub struct Scatter {
    pub attenuation: Color,
    pub scattered: Ray,
}

/// The random numbers that one scattering event may use.
#[derive(Clone, Copy, PartialEq, Eq, Structural, Debug)]
pub struct Sample {
    /// An angle around the z axis, from zero up to a full turn.
    pub angle: Fixed,
    /// A height on the unit sphere, from minus one up to one.
    pub height: Fixed,
    /// A point inside the unit sphere.
    pub ball: Vec3,
    /// A number from zero up to one.
    pub coin: Fixed,
}

impl Sample {
    /// Every number is in its range.
    pub open spec fn valid(&self) -> bool {
        &&& 0 <= self.angle.raw < TWO_PI_RAW
        &&& -SCALE <= self.height.raw < SCALE
        &&& self.ball.length_squared().raw < SCALE
        &&& 0 <= self.coin.raw < SCALE
    }

    /// The point of the unit sphere at this angle and height.
    pub open spec fn unit_spec(&self) -> Vec3 {
        Vec3::unit_at(self.angle, self.height)
    }

    /// The point of the unit sphere at this angle and height.
    pub fn unit(&self) -> (r: Vec3)
        ensures
            r == self.unit_spec(),
    {
        Vec3::unit_at(self.angle, self.height)
    }

    /// Draws the numbers of one scattering event.
    pub fn draw(rng: &mut RandomSource) -> (r: Sample)
        ensures
            r.valid(),
    {
        let angle = rand_with_range(rng, Fixed::zero(), Fixed { raw: TWO_PI_RAW });
        let height = rand_with_range(rng, Fixed::from_int(-1), Fixed::from_int(1));
        let ball = Vec3::rand_in_unit_sphere(rng);
        let coin = random_double(rng);
        Sample { angle, height, ball, coin }
    }
}

/// Schlick's estimate of the share of light that a surface between two
/// media reflects: `r0 + (1 - r0) (1 - cosine)⁵`, with
/// `r0 = ((1 - ref_ind) / (1 + ref_ind))²`.
pub open spec fn schlick_spec(cosine: Fixed, ref_ind: Fixed) -> Fixed {
    let root = Fixed::one().sub(ref_ind).div(Fixed::one().add(ref_ind));
    let r0 = root.mul(root);
    let c = Fixed::one().sub(cosine);
    r0.add(Fixed::one().sub(r0).mul(c.mul(c).mul(c).mul(c).mul(c)))
}

/// Schlick's estimate of the reflectance.
#[verifier::when_used_as_spec(schlick_spec)]
pub fn schlick(cosine: Fixed, ref_ind: Fixed) -> (r: Fixed)
    ensures
        r == schlick_spec(cosine, ref_ind),
{
    let root = Fixed::one().sub(ref_ind).div(Fixed::one().add(ref_ind));
    let r0 = root.mul(root);
    let c = Fixed::one().sub(cosine);
    r0.add(Fixed::one().sub(r0).mul(c.mul(c).mul(c).mul(c).mul(c)))
}

/// A matte surface: light leaves in a random direction about the normal,
/// coloured by a texture.
pub struct Lambertian {
    pub albedo: Rc<Texture>,
}

/// A mirror, more or less polished.
pub struct Metal {
    pub albedo: Vec3,
    pub fuzz: Fixed,
}

/// Glass and the like: light is reflected or refracted, never absorbed.
pub struct Dielectric {
    pub ref_idx: Fixed,
}

/// A lamp: it sends out light of its own and scatters none.
pub struct DiffuseLight {
    pub emit: Rc<Texture>,
}

/// Any material.
pub enum Material {
    Lambertian(Lambertian),
    Metal(Metal),
    Dielectric(Dielectric),
    DiffuseLight(DiffuseLight),
}

impl Lambertian {
    /// Always scatters: from the hit point along the normal plus the unit
    /// vector `unit`, with the texture's colour at the hit.
    pub open spec fn scatter_with_spec(&self, ray_in: Ray, record: HitRecord, unit: Vec3) -> Option<
        Scatter,
    > {
        Some(
            Scatter {
                attenuation: self.albedo.value_spec(record.u, record.v, record.p),
                scattered: Ray::new(record.p, record.normal.add(unit), ray_in.time),
            },
        )
    }

    /// A matte surface with the colours of a texture.
    pub fn new(albedo: Rc<Texture>) -> (r: Lambertian)
        ensures
            r.albedo == albedo,
    {
        Lambertian { albedo }
    }

    /// A matte surface of one colour.
    pub fn solid(color: Color) -> (r: Lambertian)
        ensures
            *r.albedo == Texture::Solid(SolidColor { color }),
    {
        Lambertian { albedo: Rc::new(Texture::Solid(SolidColor::new(color))) }
    }

    /// A matte surface with a checker pattern of two colours.
    pub fn checker(odd: Color, even: Color) -> (r: Lambertian)
        ensures
            *r.albedo matches Texture::Checker(c) && *c.odd == Texture::Solid(SolidColor { color: odd })
                && *c.even == Texture::Solid(SolidColor { color: even }),
    {
        Lambertian { albedo: Rc::new(Texture::Checker(CheckerTexture::new(odd, even))) }
    }

    /// Scatters along the normal plus `unit`.
    pub fn scatter_with(&self, ray_in: &Ray, record: &HitRecord, unit: Vec3) -> (r: Option<Scatter>)
        ensures
            r == self.scatter_with_spec(*ray_in, *record, unit),
    {
        let scatter_direction = record.normal.add(unit);
        Some(
            Scatter {
                attenuation: self.albedo.value(record.u, record.v, record.p),
                scattered: Ray::new(record.p, scatter_direction, ray_in.time()),
            },
        )
    }
}

impl Metal {
    /// The mirrored direction of the incoming ray, pushed off by `fuzz`
    /// times the point `ball` of the unit sphere. The ray is scattered
    /// when that direction leaves the surface, and absorbed otherwise.
    pub open spec fn scatter_with_spec(&self, ray_in: Ray, record: HitRecord, ball: Vec3) -> Option<
        Scatter,
    > {
        let reflected = Vec3::reflect(Vec3::unit_vector(ray_in.dir), record.normal);
        let direction = reflected.add(ball.scale(self.fuzz));
        if Vec3::dot(direction, record.normal).raw > 0 {
            Some(
                Scatter {
                    attenuation: self.albedo,
                    scattered: Ray::new(record.p, direction, ray_in.time),
                },
            )
        } else {
            None
        }
    }

    /// A metal of a colour; `fuzz` is held to `[0, 1]`.
    pub fn new(color: Vec3, fuzz: Fixed) -> (r: Metal)
        ensures
            r.albedo == color,
            r.fuzz == clamp(fuzz, Fixed::zero(), Fixed::one()),
    {
        Metal { albedo: color, fuzz: clamp(fuzz, Fixed::zero(), Fixed::one()) }
    }

    /// Mirrors the ray, pushed off by `fuzz` times `ball`, or absorbs it.
    pub fn scatter_with(&self, ray_in: &Ray, record: &HitRecord, ball: Vec3) -> (r: Option<Scatter>)
        ensures
            r == self.scatter_with_spec(*ray_in, *record, ball),
    {
        let reflected = Vec3::reflect(Vec3::unit_vector(ray_in.direction()), record.normal);
        let direction = reflected.add(ball.scale(self.fuzz));
        if Vec3::dot(direction, record.normal).raw > 0 {
            Some(
                Scatter {
                    attenuation: self.albedo,
                    scattered: Ray::new(record.p, direction, ray_in.time()),
                },
            )
        } else {
            None
        }
    }
}

impl Dielectric {
    /// The ratio of the refractive indices across the surface, in the
    /// direction of travel: one over the index for a ray that enters.
    pub open spec fn ratio_spec(&self, record: HitRecord) -> Fixed {
        if record.front_face {
            Fixed::one().div(self.ref_idx)
        } else {
            self.ref_idx
        }
    }

    /// The cosine of the angle of incidence, at most one.
    pub open spec fn cos_theta_spec(ray_in: Ray, record: HitRecord) -> Fixed {
        Vec3::dot(Vec3::unit_vector(ray_in.dir).neg(), record.normal).min(Fixed::one())
    }

    /// Whether the ray is reflected: when no refracted ray exists
    /// (`ratio sin > 1`), or when `coin` falls below Schlick's reflectance.
    pub open spec fn reflects_spec(&self, ray_in: Ray, record: HitRecord, coin: Fixed) -> bool {
        let ratio = self.ratio_spec(record);
        let cos_theta = Dielectric::cos_theta_spec(ray_in, record);
        let sin_theta = Fixed::one().sub(cos_theta.mul(cos_theta)).sqrt();
        ratio.mul(sin_theta).raw > SCALE || coin.raw < schlick_spec(cos_theta, ratio).raw
    }

    /// Always scatters, and keeps all the light: the ray goes on
    /// reflected or refracted.
    pub open spec fn scatter_with_spec(&self, ray_in: Ray, record: HitRecord, coin: Fixed) -> Option<
        Scatter,
    > {
        let unit_direction = Vec3::unit_vector(ray_in.dir);
        let direction = if self.reflects_spec(ray_in, record, coin) {
            Vec3::reflect(unit_direction, record.normal)
        } else {
            refract(unit_direction, record.normal, self.ratio_spec(record))
        };
        Some(
            Scatter {
                attenuation: Vec3::from_ints(1, 1, 1),
                scattered: Ray::new(record.p, direction, ray_in.time),
            },
        )
    }

    /// Glass of the refractive index `ref_idx`.
    pub fn new(ref_idx: Fixed) -> (r: Dielectric)
        ensures
            r.ref_idx == ref_idx,
    {
        Dielectric { ref_idx }
    }

    /// Reflects or refracts the ray, as `coin` decides.
    pub fn scatter_with(&self, ray_in: &Ray, record: &HitRecord, coin: Fixed) -> (r: Option<Scatter>)
        ensures
            r == self.scatter_with_spec(*ray_in, *record, coin),
    {
        let attenuation = Vec3::from_ints(1, 1, 1);
        let etai_over_etat = if record.front_face {
            Fixed::one().div(self.ref_idx)
        } else {
            self.ref_idx
        };
        let unit_direction = Vec3::unit_vector(ray_in.direction());
        let cos_theta = Vec3::dot(unit_direction.neg(), record.normal).min(Fixed::one());
        let sin_theta = Fixed::one().sub(cos_theta.mul(cos_theta)).sqrt();
        if etai_over_etat.mul(sin_theta).raw > SCALE {
            let reflected = Vec3::reflect(unit_direction, record.normal);
            return Some(Scatter { attenuation, scattered: Ray::new(record.p, reflected, ray_in.time()) });
        }
        let reflect_prob = schlick(cos_theta, etai_over_etat);
        if coin.raw < reflect_prob.raw {
            let reflected = Vec3::reflect(unit_direction, record.normal);
            return Some(Scatter { attenuation, scattered: Ray::new(record.p, reflected, ray_in.time()) });
        }
        let refracted = refract(unit_direction, record.normal, etai_over_etat);
        Some(Scatter { attenuation, scattered: Ray::new(record.p, refracted, ray_in.time()) })
    }
}

impl DiffuseLight {
    /// A lamp with the light of a texture.
    pub fn new(emit: Rc<Texture>) -> (r: DiffuseLight)
        ensures
            r.emit == emit,
    {
        DiffuseLight { emit }
    }

    /// A lamp of one colour.
    pub fn solid(color: Color) -> (r: DiffuseLight)
        ensures
            *r.emit == Texture::Solid(SolidColor { color }),
    {
        DiffuseLight { emit: Rc::new(Texture::Solid(SolidColor::new(color))) }
    }
}

impl Material {
    /// What the material does to the ray `ray_in` that hit it at `record`,
    /// given the random numbers of `sample`: the scattered ray with its
    /// attenuation, or `None` when the ray is absorbed.
    pub open spec fn scatter_with_spec(&self, ray_in: Ray, record: HitRecord, sample: Sample) -> Option<
        Scatter,
    > {
        match self {
            Material::Lambertian(m) => m.scatter_with_spec(ray_in, record, sample.unit_spec()),
            Material::Metal(m) => m.scatter_with_spec(ray_in, record, sample.ball),
            Material::Dielectric(m) => m.scatter_with_spec(ray_in, record, sample.coin),
            Material::DiffuseLight(m) => None,
        }
    }

    /// The light that the material sends out by itself: a lamp's texture,
    /// and black for every other material.
    pub open spec fn emitted_spec(&self, u: Fixed, v: Fixed, p: Vec3) -> Color {
        match self {
            Material::DiffuseLight(m) => m.emit.value_spec(u, v, p),
            _ => Vec3::zero(),
        }
    }

    /// Scatters with the random numbers of `sample`.
    pub fn scatter_with(&self, ray_in: &Ray, record: &HitRecord, sample: &Sample) -> (r: Option<
        Scatter,
    >)
        ensures
            r == self.scatter_with_spec(*ray_in, *record, *sample),
    {
        match self {
            Material::Lambertian(m) => m.scatter_with(ray_in, record, sample.unit()),
            Material::Metal(m) => m.scatter_with(ray_in, record, sample.ball),
            Material::Dielectric(m) => m.scatter_with(ray_in, record, sample.coin),
            Material::DiffuseLight(m) => None,
        }
    }

    /// Scatters with random numbers drawn from `rng`: whatever is drawn,
    /// the result is that of `scatter_with` on some valid sample. Only
    /// the numbers that the material uses are drawn.
    pub fn scatter(&self, ray_in: &Ray, record: &HitRecord, rng: &mut RandomSource) -> (r: Option<
        Scatter,
    >)
        ensures
            exists|sample: Sample|
                sample.valid() && r == #[trigger] self.scatter_with_spec(*ray_in, *record, sample),
            self is DiffuseLight ==> r is None,
            self is Lambertian || self is Dielectric ==> r is Some,
            self matches Material::Lambertian(m) ==> r matches Some(s) && s.attenuation
                == m.albedo.value_spec(record.u, record.v, record.p),
            r matches Some(s) ==> s.scattered.origin == record.p && s.scattered.time == ray_in.time,
    {
        let ghost quiet = Sample {
            angle: Fixed::zero(),
            height: Fixed::zero(),
            ball: Vec3::zero(),
            coin: Fixed::zero(),
        };
        assert(quiet.valid()) by {
            reveal(Fixed::mul_spec);
        }
        match self {
            Material::Lambertian(m) => {
                let angle = rand_with_range(rng, Fixed::zero(), Fixed { raw: TWO_PI_RAW });
                let height = rand_with_range(rng, Fixed::from_int(-1), Fixed::from_int(1));
                let ghost sample = Sample { angle, height, ..quiet };
                let r = m.scatter_with(ray_in, record, Vec3::unit_at(angle, height));
                assert(sample.valid() && r == self.scatter_with_spec(*ray_in, *record, sample));
                r
            },
            Material::Metal(m) => {
                let ball = Vec3::rand_in_unit_sphere(rng);
                let ghost sample = Sample { ball, ..quiet };
                let r = m.scatter_with(ray_in, record, ball);
                assert(sample.valid() && r == self.scatter_with_spec(*ray_in, *record, sample));
                r
            },
            Material::Dielectric(m) => {
                let coin = random_double(rng);
                let ghost sample = Sample { coin, ..quiet };
                let r = m.scatter_with(ray_in, record, coin);
                assert(sample.valid() && r == self.scatter_with_spec(*ray_in, *record, sample));
                r
            },
            Material::DiffuseLight(m) => {
                assert(self.scatter_with_spec(*ray_in, *record, quiet) is None);
                None
            },
        }
    }

    /// The light that the material sends out by itself.
    pub fn emitted(&self, u: Fixed, v: Fixed, p: Vec3) -> (r: Color)
        ensures
            r == self.emitted_spec(u, v, p),
    {
        match self {
            Material::DiffuseLight(m) => m.emit.value(u, v, p),
            _ => Vec3::zero(),
        }
    }
}

/// A ray that enters glass of an index of at least one is never reflected
/// for want of a refracted ray, whatever its direction: the ratio of the
/// indices and the sine of the angle of incidence are both at most one,
/// and so is their product. The ray is reflected only when the coin falls
/// below Schlick's reflectance.
pub proof fn lemma_entering_ray_is_not_totally_reflected(
    glass: Dielectric,
    ray_in: Ray,
    record: HitRecord,
    coin: Fixed,
)
    requires
        record.front_face,
        glass.ref_idx.raw >= SCALE,
    ensures
        glass.ratio_spec(record).raw <= SCALE,
        glass.reflects_spec(ray_in, record, coin) <==> coin.raw < schlick_spec(
            Dielectric::cos_theta_spec(ray_in, record),
            glass.ratio_spec(record),
        ).raw,
{
    let ratio = glass.ratio_spec(record);
    let cos_theta = Dielectric::cos_theta_spec(ray_in, record);
    let sin_theta = Fixed::one().sub(cos_theta.mul(cos_theta)).sqrt();
    lemma_div_is_fraction(Fixed::one(), glass.ref_idx);
    lemma_square_not_negative(cos_theta);
    lemma_sqrt_at_most_one(Fixed::one().sub(cos_theta.mul(cos_theta)));
    lemma_mul_by_fraction(ratio, sin_theta);
}

/// A ray that meets glass head on is never reflected for want of a
/// refracted ray: with the cosine of the angle of incidence at one, the
/// sine is zero, and the ray is reflected only when the coin falls below
/// Schlick's reflectance.
pub proof fn lemma_head_on_is_not_totally_reflected(glass: Dielectric, ray_in: Ray, record: HitRecord, coin: Fixed)
    requires
        Dielectric::cos_theta_spec(ray_in, record) == Fixed::one(),
    ensures
        glass.reflects_spec(ray_in, record, coin) <==> coin.raw < schlick_spec(
            Fixed::one(),
            glass.ratio_spec(record),
        ).raw,
{
    reveal(Fixed::sqrt_spec);
    lemma_mul_by_one(Fixed::one());
    lemma_mul_by_zero(glass.ratio_spec(record));
}

} // verus!
