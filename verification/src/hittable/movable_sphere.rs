//! Spheres in uniform motion.

use vstd::prelude::*;
use std::rc::Rc;
use crate::fixed::lemma_div_by_itself;
use crate::fixed::lemma_mul_by_one;
use crate::fixed::lemma_mul_by_zero;
use crate::fixed::Fixed;
use crate::fixed::LEAST_RAW;
use crate::hittable::aabb::Aabb;
use crate::hittable::sphere::sphere_box;
use crate::hittable::sphere::sphere_box_spec;
use crate::hittable::sphere::sphere_hit;
use crate::hittable::sphere::sphere_hit_spec;
use crate::hittable::HitRecord;
use crate::material::Material;
use crate::ray::Ray;
use crate::vec3::Vec3;

verus! {

/// A sphere whose centre moves on a straight line, from `center0` at
/// `time0` to `center1` at `time1`, and on at the same speed outside those
/// times.
pub struct MovableSphere {
    pub center0: Vec3,
    pub center1: Vec3,
    pub time0: Fixed,
    pub time1: Fixed,
    pub radius: Fixed,
    pub mat_ptr: Rc<Material>,
}

impl MovableSphere {
    /// The radius is positive and the two times differ.
    pub open spec fn valid(&self) -> bool {
        self.radius.raw > 0 && self.time0.raw != self.time1.raw
    }

    /// The centre at `time`:
    /// `center0 + (time - time0) / (time1 - time0) (center1 - center0)`.
    pub open spec fn center_spec(&self, time: Fixed) -> Vec3 {
        self.center0.add(
            self.center1.sub(self.center0).scale(
                time.sub(self.time0).div(self.time1.sub(self.time0)),
            ),
        )
    }

    /// The hit on the sphere where it stands at the ray's time.
    pub open spec fn hit_spec(&self, ray: Ray, min: Fixed, max: Fixed) -> Option<HitRecord> {
        sphere_hit_spec(self.center_spec(ray.time), self.radius, self.mat_ptr, ray, min, max)
    }

    /// The box for the times from `t0` to `t1`: the merger of the boxes of
    /// the sphere at `t0` and at `t1`.
    pub open spec fn bounds_spec(&self, t0: Fixed, t1: Fixed) -> Aabb {
        Aabb::surrounding_box_spec(
            sphere_box_spec(self.center_spec(t0), self.radius),
            sphere_box_spec(self.center_spec(t1), self.radius),
        )
    }

    /// The sphere of radius `radius` whose centre is at `center0` at
    /// `time0` and at `center1` at `time1`.
    pub fn new(
        center0: Vec3,
        center1: Vec3,
        time0: Fixed,
        time1: Fixed,
        radius: Fixed,
        mat_ptr: Rc<Material>,
    ) -> (r: MovableSphere)
        requires
            radius.raw > 0,
            time0.raw != time1.raw,
        ensures
            r.center0 == center0,
            r.center1 == center1,
            r.time0 == time0,
            r.time1 == time1,
            r.radius == radius,
            r.mat_ptr == mat_ptr,
            r.valid(),
    {
        MovableSphere { center0, center1, time0, time1, radius, mat_ptr }
    }

    /// The centre at `time`.
    #[verifier::when_used_as_spec(center_spec)]
    pub fn center(&self, time: Fixed) -> (r: Vec3)
        ensures
            r == self.center_spec(time),
    {
        self.center0.add(
            self.center1.sub(self.center0).scale(
                time.sub(self.time0).div(self.time1.sub(self.time0)),
            ),
        )
    }

    /// Where the ray hits the sphere within `(min, max)`, if it does.
    pub fn hit(&self, ray: Ray, min: Fixed, max: Fixed) -> (r: Option<HitRecord>)
        ensures
            r == self.hit_spec(ray, min, max),
            r matches Some(record) ==> min.raw < record.t.raw < max.raw && record.p == ray.at(record.t)
                && record.mat_ptr == self.mat_ptr,
    {
        sphere_hit(self.center(ray.time()), self.radius, &self.mat_ptr, &ray, min, max)
    }

    /// The box for the times from `t0` to `t1`.
    pub fn bounding_box(&self, t0: Fixed, t1: Fixed) -> (r: Option<Aabb>)
        ensures
            r == Some(self.bounds_spec(t0, t1)),
    {
        Some(self.bounds(t0, t1))
    }

    /// The box around the sphere for the times from `t0` to `t1`.
    #[verifier::when_used_as_spec(bounds_spec)]
    pub fn bounds(&self, t0: Fixed, t1: Fixed) -> (r: Aabb)
        ensures
            r == self.bounds_spec(t0, t1),
    {
        let box0 = sphere_box(self.center(t0), self.radius);
        let box1 = sphere_box(self.center(t1), self.radius);
        Aabb::surrounding_box(box0, box1)
    }
}

/// A coordinate of the second centre can be reached from the first: their
/// difference is in range.
pub open spec fn within_reach(from: Fixed, to: Fixed) -> bool {
    from.raw >= LEAST_RAW && to.raw >= LEAST_RAW && LEAST_RAW <= to.raw - from.raw <= i64::MAX
}

/// The sphere is at its first centre at its first time and at its second
/// centre at its second time, where the way from the one to the other is
/// in range.
pub proof fn lemma_center_at_both_times(sphere: MovableSphere)
    requires
        sphere.valid(),
        within_reach(sphere.center0.0, sphere.center1.0),
        within_reach(sphere.center0.1, sphere.center1.1),
        within_reach(sphere.center0.2, sphere.center1.2),
    ensures
        sphere.center_spec(sphere.time0) == sphere.center0,
        sphere.center_spec(sphere.time1) == sphere.center1,
{
    reveal(Fixed::div_spec);
    let way = sphere.center1.sub(sphere.center0);
    let span = sphere.time1.sub(sphere.time0);
    assert(sphere.time0.sub(sphere.time0).div(span) == Fixed::zero_spec());
    lemma_mul_by_zero(way.0);
    lemma_mul_by_zero(way.1);
    lemma_mul_by_zero(way.2);
    lemma_div_by_itself(span);
    lemma_mul_by_one(way.0);
    lemma_mul_by_one(way.1);
    lemma_mul_by_one(way.2);
}

} // verus!
