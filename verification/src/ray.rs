//! Rays: a half line and the instant at which it is cast.

use vstd::prelude::*;
use crate::fixed::Fixed;
use crate::vec3::Vec3;

verus! {

/// A ray from `origin` along `dir`, cast at `time`. The time picks the
/// place of moving geometry; it is drawn once for a camera sample and kept
/// through every bounce.
#[derive(Clone, Copy, PartialEq, Eq, Structural, Debug)]
pub struct Ray {
    pub origin: Vec3,
    pub dir: Vec3,
    pub time: Fixed,
}

impl Ray {
    /// The ray from `origin` along `dir` at `time`.
    pub open spec fn new_spec(origin: Vec3, dir: Vec3, time: Fixed) -> Ray {
        Ray { origin, dir, time }
    }

    /// The point at parameter `t`: `origin + t dir`.
    pub open spec fn at_spec(&self, t: Fixed) -> Vec3 {
        self.origin.add(self.dir.scale(t))
    }

    /// The ray from `origin` along `dir` at `time`.
    #[verifier::when_used_as_spec(new_spec)]
    pub fn new(origin: Vec3, dir: Vec3, time: Fixed) -> (r: Ray)
        ensures
            r == Ray::new_spec(origin, dir, time),
    {
        Ray { origin, dir, time }
    }

    /// Where the ray starts.
    pub fn origin(&self) -> (r: Vec3)
        ensures
            r == self.origin,
    {
        self.origin
    }

    /// The direction of the ray; it need not have length one.
    pub fn direction(&self) -> (r: Vec3)
        ensures
            r == self.dir,
    {
        self.dir
    }

    /// The instant at which the ray is cast.
    pub fn time(&self) -> (r: Fixed)
        ensures
            r == self.time,
    {
        self.time
    }

    /// The point at parameter `t`.
    #[verifier::when_used_as_spec(at_spec)]
    pub fn at(&self, t: Fixed) -> (r: Vec3)
        ensures
            r == self.at_spec(t),
    {
        self.origin.add(self.dir.scale(t))
    }
}

impl Default for Ray {
    /// The ray that stays at the origin, at time zero.
    fn default() -> (r: Ray)
        ensures
            r == Ray::new_spec(Vec3::zero_spec(), Vec3::zero_spec(), Fixed::zero_spec()),
    {
        Ray::new(Vec3::zero(), Vec3::zero(), Fixed::zero())
    }
}

} // verus!
