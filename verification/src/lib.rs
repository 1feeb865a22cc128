//! A Monte-Carlo path tracer on fixed-point numbers.
//!
//! A scene is a collection of shapes, each with a material; a camera turns
//! a place on the picture into a ray, and the estimator follows the ray
//! from bounce to bounce and adds up the light that comes back along it.
//! All arithmetic is done on [`fixed::Fixed`], so every result is defined
//! to the last digit and no operation can fail.

use vstd::prelude::*;
use crate::fixed::Fixed;
use crate::trig::pi;
use crate::trig::pi_spec;

pub mod camera;
pub mod fixed;
pub mod handle;
pub mod hittable;
pub mod material;
pub mod noise;
pub mod random;
pub mod ray;
pub mod render;
pub mod scene;
pub mod texture;
pub mod trig;
pub mod vec3;

pub use crate::fixed::clamp;
pub use crate::random::rand_with_range;
pub use crate::random::random_double;
pub use crate::scene::earth;
pub use crate::scene::random_scene;
pub use crate::scene::simple_light;
pub use crate::scene::two_perlin_spheres;

verus! {

/// The angle of `degrees` degrees in radians: `degrees pi / 180`.
pub open spec fn degrees_to_radians_spec(degrees: Fixed) -> Fixed {
    degrees.mul(pi_spec()).div(Fixed::from_int(180))
}

/// The angle of `degrees` degrees in radians.
#[verifier::when_used_as_spec(degrees_to_radians_spec)]
pub fn degrees_to_radians(degrees: Fixed) -> (r: Fixed)
    ensures
        r == degrees_to_radians_spec(degrees),
{
    degrees.mul(pi()).div(Fixed::from_int(180))
}

} // verus!
