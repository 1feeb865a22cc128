//! Vectors, points and colours in three dimensions.

use vstd::prelude::*;
use crate::fixed::lemma_mul_neg;
use crate::fixed::lemma_results_in_range;
use crate::fixed::Fixed;
use crate::fixed::LEAST_RAW;
use crate::fixed::SCALE;
use crate::random::rand_with_range;
use crate::random::random_double;
use crate::random::RandomSource;
use crate::trig::cos;
use crate::trig::cos_spec;
use crate::trig::sin;
use crate::trig::sin_spec;
use crate::trig::TWO_PI_RAW;

verus! {

/// Three fixed-point coordinates.
#[derive(Clone, Copy, PartialEq, Eq, Structural, Debug)]
pub struct Vec3(pub Fixed, pub Fixed, pub Fixed);

/// A colour: red, green and blue, each one meaning full intensity.
pub type Color = Vec3;

impl Vec3 {
    /// The vector of three coordinates.
    pub open spec fn new_spec(x: Fixed, y: Fixed, z: Fixed) -> Vec3 {
        Vec3(x, y, z)
    }

    /// The origin.
    pub open spec fn zero_spec() -> Vec3 {
        Vec3(Fixed::zero(), Fixed::zero(), Fixed::zero())
    }

    /// The vector of three whole numbers.
    pub open spec fn from_ints_spec(x: i64, y: i64, z: i64) -> Vec3 {
        Vec3(Fixed::from_int(x), Fixed::from_int(y), Fixed::from_int(z))
    }

    /// The coordinate on `axis`: 0, 1 or 2.
    pub open spec fn get_spec(&self, index: usize) -> Fixed
        recommends
            index < 3,
    {
        if index == 0 {
            self.0
        } else if index == 1 {
            self.1
        } else {
            self.2
        }
    }

    /// No coordinate is `i64::MIN`, the one raw value without a negative.
    /// Every vector that an operation gives is such.
    pub open spec fn has_negative(self) -> bool {
        self.0.raw >= LEAST_RAW && self.1.raw >= LEAST_RAW && self.2.raw >= LEAST_RAW
    }

    /// The opposite vector.
    pub open spec fn neg_spec(self) -> Vec3 {
        Vec3(self.0.neg(), self.1.neg(), self.2.neg())
    }

    /// The sum, coordinate by coordinate.
    pub open spec fn add_spec(self, rhs: Vec3) -> Vec3 {
        Vec3(self.0.add(rhs.0), self.1.add(rhs.1), self.2.add(rhs.2))
    }

    /// The difference, coordinate by coordinate.
    pub open spec fn sub_spec(self, rhs: Vec3) -> Vec3 {
        Vec3(self.0.sub(rhs.0), self.1.sub(rhs.1), self.2.sub(rhs.2))
    }

    /// The product coordinate by coordinate.
    pub open spec fn mul_spec(self, rhs: Vec3) -> Vec3 {
        Vec3(self.0.mul(rhs.0), self.1.mul(rhs.1), self.2.mul(rhs.2))
    }

    /// Every coordinate times `factor`.
    pub open spec fn scale_spec(self, factor: Fixed) -> Vec3 {
        Vec3(self.0.mul(factor), self.1.mul(factor), self.2.mul(factor))
    }

    /// Every coordinate over `divisor`.
    pub open spec fn div_spec(self, divisor: Fixed) -> Vec3 {
        Vec3(self.0.div(divisor), self.1.div(divisor), self.2.div(divisor))
    }

    /// The dot product: the sum of the products of the coordinates.
    pub open spec fn dot_spec(lhs: Vec3, rhs: Vec3) -> Fixed {
        lhs.0.mul(rhs.0).add(lhs.1.mul(rhs.1)).add(lhs.2.mul(rhs.2))
    }

    /// The dot product of the vector with itself.
    pub open spec fn length_squared_spec(&self) -> Fixed {
        self.0.mul(self.0).add(self.1.mul(self.1)).add(self.2.mul(self.2))
    }

    /// The square root of the squared length.
    pub open spec fn length_spec(&self) -> Fixed {
        self.length_squared_spec().sqrt()
    }

    /// The cross product.
    pub open spec fn cross_spec(lhs: Vec3, rhs: Vec3) -> Vec3 {
        Vec3(
            lhs.1.mul(rhs.2).sub(lhs.2.mul(rhs.1)),
            lhs.2.mul(rhs.0).sub(lhs.0.mul(rhs.2)),
            lhs.0.mul(rhs.1).sub(lhs.1.mul(rhs.0)),
        )
    }

    /// The mirror image of `v` in the plane with normal `normal`:
    /// `v - 2 (v . n) n`.
    pub open spec fn reflect_spec(v: Vec3, normal: Vec3) -> Vec3 {
        v.sub(normal.scale(Fixed::from_int(2).mul(Vec3::dot(v, normal))))
    }

    /// `v` divided by its length.
    pub open spec fn unit_vector_spec(v: Vec3) -> Vec3 {
        v.div(v.length())
    }

    /// The vector of three coordinates.
    #[verifier::when_used_as_spec(new_spec)]
    pub fn new(x: Fixed, y: Fixed, z: Fixed) -> (r: Vec3)
        ensures
            r == Vec3::new_spec(x, y, z),
    {
        Vec3(x, y, z)
    }

    /// The origin, and the colour black.
    #[verifier::when_used_as_spec(zero_spec)]
    pub fn zero() -> (r: Vec3)
        ensures
            r == Vec3::zero_spec(),
    {
        Vec3(Fixed::zero(), Fixed::zero(), Fixed::zero())
    }

    /// The vector of three whole numbers.
    #[verifier::when_used_as_spec(from_ints_spec)]
    pub fn from_ints(x: i64, y: i64, z: i64) -> (r: Vec3)
        ensures
            r == Vec3::from_ints_spec(x, y, z),
    {
        Vec3(Fixed::from_int(x), Fixed::from_int(y), Fixed::from_int(z))
    }

    /// The first coordinate.
    pub fn x(&self) -> (r: Fixed)
        ensures
            r == self.0,
    {
        self.0
    }

    /// The second coordinate.
    pub fn y(&self) -> (r: Fixed)
        ensures
            r == self.1,
    {
        self.1
    }

    /// The third coordinate.
    pub fn z(&self) -> (r: Fixed)
        ensures
            r == self.2,
    {
        self.2
    }

    /// The coordinate on axis 0, 1 or 2.
    #[verifier::when_used_as_spec(get_spec)]
    pub fn get(&self, index: usize) -> (r: Fixed)
        requires
            index < 3,
        ensures
            r == self.get_spec(index),
    {
        if index == 0 {
            self.0
        } else if index == 1 {
            self.1
        } else {
            self.2
        }
    }

    /// The opposite vector.
    #[verifier::when_used_as_spec(neg_spec)]
    pub fn neg(self) -> (r: Vec3)
        ensures
            r == self.neg_spec(),
    {
        Vec3(self.0.neg(), self.1.neg(), self.2.neg())
    }

    /// The sum, coordinate by coordinate.
    #[verifier::when_used_as_spec(add_spec)]
    pub fn add(self, rhs: Vec3) -> (r: Vec3)
        ensures
            r == self.add_spec(rhs),
    {
        Vec3(self.0.add(rhs.0), self.1.add(rhs.1), self.2.add(rhs.2))
    }

    /// The difference, coordinate by coordinate.
    #[verifier::when_used_as_spec(sub_spec)]
    pub fn sub(self, rhs: Vec3) -> (r: Vec3)
        ensures
            r == self.sub_spec(rhs),
    {
        Vec3(self.0.sub(rhs.0), self.1.sub(rhs.1), self.2.sub(rhs.2))
    }

    /// The product, coordinate by coordinate.
    #[verifier::when_used_as_spec(mul_spec)]
    pub fn mul(self, rhs: Vec3) -> (r: Vec3)
        ensures
            r == self.mul_spec(rhs),
    {
        Vec3(self.0.mul(rhs.0), self.1.mul(rhs.1), self.2.mul(rhs.2))
    }

    /// Every coordinate times `factor`.
    #[verifier::when_used_as_spec(scale_spec)]
    pub fn scale(self, factor: Fixed) -> (r: Vec3)
        ensures
            r == self.scale_spec(factor),
    {
        Vec3(self.0.mul(factor), self.1.mul(factor), self.2.mul(factor))
    }

    /// Every coordinate over `divisor`.
    #[verifier::when_used_as_spec(div_spec)]
    pub fn div(self, divisor: Fixed) -> (r: Vec3)
        ensures
            r == self.div_spec(divisor),
            r.has_negative(),
    {
        Vec3(self.0.div(divisor), self.1.div(divisor), self.2.div(divisor))
    }

    /// The dot product.
    #[verifier::when_used_as_spec(dot_spec)]
    pub fn dot(lhs: Vec3, rhs: Vec3) -> (r: Fixed)
        ensures
            r == Vec3::dot_spec(lhs, rhs),
    {
        lhs.0.mul(rhs.0).add(lhs.1.mul(rhs.1)).add(lhs.2.mul(rhs.2))
    }

    /// The squared length.
    #[verifier::when_used_as_spec(length_squared_spec)]
    pub fn length_squared(&self) -> (r: Fixed)
        ensures
            r == self.length_squared_spec(),
    {
        self.0.mul(self.0).add(self.1.mul(self.1)).add(self.2.mul(self.2))
    }

    /// The length.
    #[verifier::when_used_as_spec(length_spec)]
    pub fn length(&self) -> (r: Fixed)
        ensures
            r == self.length_spec(),
    {
        self.length_squared().sqrt()
    }

    /// The cross product.
    #[verifier::when_used_as_spec(cross_spec)]
    pub fn cross(lhs: Vec3, rhs: Vec3) -> (r: Vec3)
        ensures
            r == Vec3::cross_spec(lhs, rhs),
    {
        Vec3(
            lhs.1.mul(rhs.2).sub(lhs.2.mul(rhs.1)),
            lhs.2.mul(rhs.0).sub(lhs.0.mul(rhs.2)),
            lhs.0.mul(rhs.1).sub(lhs.1.mul(rhs.0)),
        )
    }

    /// The mirror image of `v` in the plane with normal `normal`.
    #[verifier::when_used_as_spec(reflect_spec)]
    pub fn reflect(v: Vec3, normal: Vec3) -> (r: Vec3)
        ensures
            r == Vec3::reflect_spec(v, normal),
    {
        v.sub(normal.scale(Fixed::from_int(2).mul(Vec3::dot(v, normal))))
    }

    /// `v` divided by its length.
    #[verifier::when_used_as_spec(unit_vector_spec)]
    pub fn unit_vector(v: Vec3) -> (r: Vec3)
        ensures
            r == Vec3::unit_vector_spec(v),
    {
        v.div(v.length())
    }

    /// The point of the unit sphere at `height` on the z axis and at
    /// `angle` around it: `(r cos angle, r sin angle, height)` with
    /// `r = sqrt(1 - height²)`.
    pub open spec fn unit_at_spec(angle: Fixed, height: Fixed) -> Vec3 {
        let r = Fixed::one().sub(height.mul(height)).sqrt();
        Vec3(r.mul(cos_spec(angle)), r.mul(sin_spec(angle)), height)
    }

    /// The point of the unit sphere at an angle and a height.
    #[verifier::when_used_as_spec(unit_at_spec)]
    pub fn unit_at(angle: Fixed, height: Fixed) -> (r: Vec3)
        ensures
            r == Vec3::unit_at_spec(angle, height),
    {
        let r = Fixed::one().sub(height.mul(height)).sqrt();
        Vec3(r.mul(cos(angle)), r.mul(sin(angle)), height)
    }

    /// A vector whose coordinates are drawn from zero up to one.
    pub fn random(rng: &mut RandomSource) -> (r: Vec3)
        ensures
            0 <= r.0.raw < SCALE,
            0 <= r.1.raw < SCALE,
            0 <= r.2.raw < SCALE,
    {
        let x = random_double(rng);
        let y = random_double(rng);
        let z = random_double(rng);
        Vec3(x, y, z)
    }

    /// A vector whose coordinates are drawn from `min` up to `max`.
    pub fn rand_with_range(rng: &mut RandomSource, min: Fixed, max: Fixed) -> (r: Vec3)
        requires
            min.raw < max.raw,
        ensures
            min.raw <= r.0.raw < max.raw,
            min.raw <= r.1.raw < max.raw,
            min.raw <= r.2.raw < max.raw,
    {
        let x = rand_with_range(rng, min, max);
        let y = rand_with_range(rng, min, max);
        let z = rand_with_range(rng, min, max);
        Vec3(x, y, z)
    }

    /// A point of the unit sphere, at a drawn angle and a drawn height.
    pub fn rand_unit_vector(rng: &mut RandomSource) -> (r: Vec3)
        ensures
            exists|angle: Fixed, height: Fixed|
                0 <= angle.raw < TWO_PI_RAW && -SCALE <= height.raw < SCALE && r
                    == #[trigger] Vec3::unit_at_spec(angle, height),
    {
        let a = rand_with_range(rng, Fixed::zero(), Fixed { raw: TWO_PI_RAW });
        let z = rand_with_range(rng, Fixed::from_int(-1), Fixed::from_int(1));
        Vec3::unit_at(a, z)
    }

    /// A point inside the unit sphere. Points of the cube `[-1, 1)³` are
    /// drawn until one lies inside; should sixty-four in a row lie
    /// outside, the centre is returned.
    pub fn rand_in_unit_sphere(rng: &mut RandomSource) -> (r: Vec3)
        ensures
            r.length_squared().raw < SCALE,
    {
        let mut attempts: u32 = 0;
        while attempts < 64
            invariant
                attempts <= 64,
            decreases 64 - attempts,
        {
            let p = Vec3::rand_with_range(rng, Fixed::from_int(-1), Fixed::from_int(1));
            if p.length_squared().raw < SCALE {
                return p;
            }
            attempts = attempts + 1;
        }
        assert(Vec3::zero().length_squared().raw == 0) by {
            reveal(Fixed::mul_spec);
        }
        Vec3::zero()
    }

    /// A point inside the unit disk of the plane `z = 0`, drawn like a
    /// point inside the unit sphere.
    pub fn rand_in_unit_disk(rng: &mut RandomSource) -> (r: Vec3)
        ensures
            r.length_squared().raw < SCALE,
            r.2.raw == 0,
    {
        let mut attempts: u32 = 0;
        while attempts < 64
            invariant
                attempts <= 64,
            decreases 64 - attempts,
        {
            let x = rand_with_range(rng, Fixed::from_int(-1), Fixed::from_int(1));
            let y = rand_with_range(rng, Fixed::from_int(-1), Fixed::from_int(1));
            let p = Vec3(x, y, Fixed::zero());
            if p.length_squared().raw < SCALE {
                return p;
            }
            attempts = attempts + 1;
        }
        assert(Vec3::zero().length_squared().raw == 0) by {
            reveal(Fixed::mul_spec);
        }
        Vec3::zero()
    }

    /// The colour of three bytes, 255 meaning full intensity.
    pub open spec fn from_bytes_spec(rgb: (u8, u8, u8)) -> Vec3 {
        Vec3(
            Fixed::from_ratio(rgb.0 as i64, 255),
            Fixed::from_ratio(rgb.1 as i64, 255),
            Fixed::from_ratio(rgb.2 as i64, 255),
        )
    }

    /// The colour of three bytes, 255 meaning full intensity.
    #[verifier::when_used_as_spec(from_bytes_spec)]
    pub fn from_bytes(rgb: (u8, u8, u8)) -> (r: Vec3)
        ensures
            r == Vec3::from_bytes_spec(rgb),
    {
        Vec3(
            Fixed::from_ratio(rgb.0 as i64, 255),
            Fixed::from_ratio(rgb.1 as i64, 255),
            Fixed::from_ratio(rgb.2 as i64, 255),
        )
    }
}

/// The direction of a ray refracted at a surface: `uv` is the unit
/// direction of the incoming ray, `n` the unit normal against it, and
/// `etai_over_etat` the ratio of the refractive indices. The part along the
/// surface is `ratio (uv + cos n)`, the part along the normal
/// `-sqrt(1 - |parallel|²) n`.
pub open spec fn refract_spec(uv: Vec3, n: Vec3, etai_over_etat: Fixed) -> Vec3 {
    let cos_theta = Vec3::dot(uv.neg(), n);
    let r_out_parallel = uv.add(n.scale(cos_theta)).scale(etai_over_etat);
    let r_out_perp = n.scale(Fixed::one().sub(r_out_parallel.length_squared()).sqrt().neg());
    r_out_parallel.add(r_out_perp)
}

/// The direction of the refracted ray.
#[verifier::when_used_as_spec(refract_spec)]
pub fn refract(uv: Vec3, n: Vec3, etai_over_etat: Fixed) -> (r: Vec3)
    ensures
        r == refract_spec(uv, n, etai_over_etat),
{
    let cos_theta = Vec3::dot(uv.neg(), n);
    let r_out_parallel = uv.add(n.scale(cos_theta)).scale(etai_over_etat);
    let r_out_perp = n.scale(Fixed::one().sub(r_out_parallel.length_squared()).sqrt().neg());
    r_out_parallel.add(r_out_perp)
}

/// The dot product with the opposite of a vector is the negative of the
/// dot product with the vector.
pub proof fn lemma_dot_neg(a: Vec3, b: Vec3)
    requires
        b.has_negative(),
    ensures
        Vec3::dot_spec(a, b.neg_spec()) == Vec3::dot_spec(a, b).neg_spec(),
{
    lemma_mul_neg(a.0, b.0);
    lemma_mul_neg(a.1, b.1);
    lemma_mul_neg(a.2, b.2);
    lemma_results_in_range(a.0, b.0);
    lemma_results_in_range(a.1, b.1);
    lemma_results_in_range(a.2, b.2);
}

impl Default for Vec3 {
    /// The origin.
    fn default() -> (r: Vec3)
        ensures
            r == Vec3::zero_spec(),
    {
        Vec3::zero()
    }
}

impl From<(u8, u8, u8)> for Vec3 {
    /// The colour of three bytes, 255 meaning full intensity.
    fn from(rgb: (u8, u8, u8)) -> (r: Vec3) {
        Vec3::from_bytes(rgb)
    }
}

impl vstd::std_specs::convert::FromSpecImpl<(u8, u8, u8)> for Vec3 {
    open spec fn obeys_from_spec() -> bool {
        true
    }

    open spec fn from_spec(rgb: (u8, u8, u8)) -> Vec3 {
        Vec3::from_bytes_spec(rgb)
    }
}

} // verus!
