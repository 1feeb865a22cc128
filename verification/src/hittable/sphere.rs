//! Spheres.

use vstd::prelude::*;
use std::rc::Rc;
use crate::fixed::lemma_div_monotone;
use crate::fixed::lemma_sqrt_not_negative;
use crate::fixed::lemma_square_not_negative;
use crate::fixed::lemma_div_is_fraction;
use crate::fixed::Fixed;
use crate::fixed::SCALE;
use crate::hittable::aabb::Aabb;
use crate::hittable::HitRecord;
use crate::material::Material;
use crate::ray::Ray;
use crate::trig::asin;
use crate::trig::asin_spec;
use crate::trig::atan2;
use crate::trig::atan2_spec;
use crate::trig::lemma_asin_range;
use crate::trig::lemma_atan2_range;
use crate::trig::pi;
use crate::trig::pi_spec;
use crate::vec3::Vec3;

verus! {

/// The surface coordinates of the point `p` of the unit sphere:
/// `u = 1 - (atan2(z, x) + pi) / (2 pi)` runs once around the y axis, and
/// `v = (asin(y) + pi / 2) / pi` from the bottom to the top.
pub open spec fn get_sphere_uv_spec(p: Vec3) -> (Fixed, Fixed) {
    let phi = atan2_spec(p.2, p.0);
    let theta = asin_spec(p.1);
    let u = Fixed::one().sub(phi.add(pi_spec()).div(Fixed::from_int(2).mul(pi_spec())));
    let v = theta.add(pi_spec().div(Fixed::from_int(2))).div(pi_spec());
    (u, v)
}

/// Both surface coordinates lie from zero to one, whatever the point.
pub proof fn lemma_sphere_uv_range(p: Vec3)
    ensures
        0 <= get_sphere_uv_spec(p).0.raw <= SCALE,
        0 <= get_sphere_uv_spec(p).1.raw <= SCALE,
{
    reveal(Fixed::mul_spec);
    reveal(Fixed::div_spec);
    let phi = atan2_spec(p.2, p.0);
    let theta = asin_spec(p.1);
    lemma_atan2_range(p.2, p.0);
    lemma_asin_range(p.1);
    let turn = Fixed::from_int(2).mul(pi_spec());
    assert(turn.raw == 6_283_186);
    let quarter = pi_spec().div(Fixed::from_int(2));
    assert(quarter.raw == 1_570_796);
    lemma_div_is_fraction(phi.add(pi_spec()), turn);
    lemma_div_is_fraction(theta.add(quarter), pi_spec());
}

/// The surface coordinates of a point of the unit sphere, each from zero
/// to one.
pub fn get_sphere_uv(p: &Vec3) -> (r: (Fixed, Fixed))
    ensures
        r == get_sphere_uv_spec(*p),
        0 <= r.0.raw <= SCALE,
        0 <= r.1.raw <= SCALE,
{
    proof {
        lemma_sphere_uv_range(*p);
    }
    let phi = atan2(p.z(), p.x());
    let theta = asin(p.y());
    let u = Fixed::one().sub(phi.add(pi()).div(Fixed::from_int(2).mul(pi())));
    let v = theta.add(pi().div(Fixed::from_int(2))).div(pi());
    (u, v)
}

/// The record of the hit at parameter `t` of the sphere about `center`:
/// the outward normal is the vector from the centre to the hit point,
/// divided by the radius.
pub open spec fn sphere_record_spec(
    center: Vec3,
    radius: Fixed,
    mat_ptr: Rc<Material>,
    ray: Ray,
    t: Fixed,
) -> HitRecord {
    let p = ray.at(t);
    let normal = p.sub(center).div(radius);
    let uv = get_sphere_uv_spec(normal);
    HitRecord::new_spec(p, t, uv.0, uv.1, normal, mat_ptr, ray)
}

/// The discriminant, over four, of the equation `|O + t D - C|² = r²` in
/// `t`: `h² - a c` with `a = D . D`, `h = (O - C) . D` and
/// `c = |O - C|² - r²`.
pub open spec fn sphere_discriminant_spec(center: Vec3, radius: Fixed, ray: Ray) -> Fixed {
    let oc = ray.origin.sub(center);
    let a = Vec3::dot(ray.dir, ray.dir);
    let half_b = Vec3::dot(oc, ray.dir);
    let c = Vec3::dot(oc, oc).sub(radius.mul(radius));
    half_b.mul(half_b).sub(a.mul(c))
}

/// The smaller root of the equation, `(-h - sqrt(disc)) / a`.
pub open spec fn sphere_near_root_spec(center: Vec3, radius: Fixed, ray: Ray) -> Fixed {
    let oc = ray.origin.sub(center);
    let a = Vec3::dot(ray.dir, ray.dir);
    let half_b = Vec3::dot(oc, ray.dir);
    half_b.neg().sub(sphere_discriminant_spec(center, radius, ray).sqrt()).div(a)
}

/// The larger root of the equation, `(-h + sqrt(disc)) / a`.
pub open spec fn sphere_far_root_spec(center: Vec3, radius: Fixed, ray: Ray) -> Fixed {
    let oc = ray.origin.sub(center);
    let a = Vec3::dot(ray.dir, ray.dir);
    let half_b = Vec3::dot(oc, ray.dir);
    half_b.neg().add(sphere_discriminant_spec(center, radius, ray).sqrt()).div(a)
}

/// The smaller root is not greater than the larger one.
pub proof fn lemma_sphere_roots_ordered(center: Vec3, radius: Fixed, ray: Ray)
    ensures
        sphere_near_root_spec(center, radius, ray).raw <= sphere_far_root_spec(center, radius, ray).raw,
{
    let oc = ray.origin.sub(center);
    let a = Vec3::dot(ray.dir, ray.dir);
    let half_b = Vec3::dot(oc, ray.dir);
    let root = sphere_discriminant_spec(center, radius, ray).sqrt();
    lemma_sqrt_not_negative(sphere_discriminant_spec(center, radius, ray));
    lemma_square_not_negative(ray.dir.0);
    lemma_square_not_negative(ray.dir.1);
    lemma_square_not_negative(ray.dir.2);
    assert(a.raw >= 0);
    lemma_div_monotone(half_b.neg().sub(root), half_b.neg().add(root), a);
}

/// The parameter at which the ray hits the sphere within `(min, max)`:
/// none unless the discriminant is positive; then the smaller root if it
/// lies in the interval, else the larger root if that one does.
pub open spec fn sphere_hit_t_spec(center: Vec3, radius: Fixed, ray: Ray, min: Fixed, max: Fixed) -> Option<
    Fixed,
> {
    if sphere_discriminant_spec(center, radius, ray).raw > 0 {
        let near = sphere_near_root_spec(center, radius, ray);
        let far = sphere_far_root_spec(center, radius, ray);
        if min.raw < near.raw && near.raw < max.raw {
            Some(near)
        } else if min.raw < far.raw && far.raw < max.raw {
            Some(far)
        } else {
            None
        }
    } else {
        None
    }
}

/// The hit of a ray on the sphere about `center`, within `(min, max)`.
pub open spec fn sphere_hit_spec(
    center: Vec3,
    radius: Fixed,
    mat_ptr: Rc<Material>,
    ray: Ray,
    min: Fixed,
    max: Fixed,
) -> Option<HitRecord> {
    match sphere_hit_t_spec(center, radius, ray, min, max) {
        Some(t) => Some(sphere_record_spec(center, radius, mat_ptr, ray, t)),
        None => None,
    }
}

/// The box of the sphere about `center`: the radius to each side.
pub open spec fn sphere_box_spec(center: Vec3, radius: Fixed) -> Aabb {
    Aabb {
        min: center.sub(Vec3(radius, radius, radius)),
        max: center.add(Vec3(radius, radius, radius)),
    }
}

/// The record of the hit at parameter `t`.
fn sphere_record(center: Vec3, radius: Fixed, mat_ptr: &Rc<Material>, ray: &Ray, t: Fixed) -> (r:
    HitRecord)
    ensures
        r == sphere_record_spec(center, radius, *mat_ptr, *ray, t),
{
    let p = ray.at(t);
    let normal = p.sub(center).div(radius);
    let (u, v) = get_sphere_uv(&normal);
    HitRecord::new(p, t, u, v, normal, mat_ptr, ray)
}

/// The hit of a ray on the sphere about `center`, within `(min, max)`.
pub(crate) fn sphere_hit(
    center: Vec3,
    radius: Fixed,
    mat_ptr: &Rc<Material>,
    ray: &Ray,
    min: Fixed,
    max: Fixed,
) -> (r: Option<HitRecord>)
    ensures
        r == sphere_hit_spec(center, radius, *mat_ptr, *ray, min, max),
{
    let oc = ray.origin().sub(center);
    let a = Vec3::dot(ray.direction(), ray.direction());
    let half_b = Vec3::dot(oc, ray.direction());
    let c = Vec3::dot(oc, oc).sub(radius.mul(radius));
    let discriminant = half_b.mul(half_b).sub(a.mul(c));
    if discriminant.raw > 0 {
        let root = discriminant.sqrt();
        let temp = half_b.neg().sub(root).div(a);
        if temp.raw < max.raw && temp.raw > min.raw {
            return Some(sphere_record(center, radius, mat_ptr, ray, temp));
        }
        let temp = half_b.neg().add(root).div(a);
        if temp.raw < max.raw && temp.raw > min.raw {
            return Some(sphere_record(center, radius, mat_ptr, ray, temp));
        }
    }
    None
}

/// The box of the sphere about `center`.
pub(crate) fn sphere_box(center: Vec3, radius: Fixed) -> (r: Aabb)
    ensures
        r == sphere_box_spec(center, radius),
{
    Aabb::new(center.sub(Vec3(radius, radius, radius)), center.add(Vec3(radius, radius, radius)))
}

/// A sphere at rest.
pub struct Sphere {
    pub center: Vec3,
    pub radius: Fixed,
    pub mat_ptr: Rc<Material>,
}

impl Sphere {
    /// The radius is positive.
    pub open spec fn valid(&self) -> bool {
        self.radius.raw > 0
    }

    /// The hit of the ray on the sphere within `(min, max)`.
    pub open spec fn hit_spec(&self, ray: Ray, min: Fixed, max: Fixed) -> Option<HitRecord> {
        sphere_hit_spec(self.center, self.radius, self.mat_ptr, ray, min, max)
    }

    /// The box of the sphere: the radius to each side of the centre.
    pub open spec fn bounds_spec(&self) -> Aabb {
        sphere_box_spec(self.center, self.radius)
    }

    /// The sphere of radius `radius` about `center`.
    pub fn new(center: Vec3, radius: Fixed, mat_ptr: Rc<Material>) -> (r: Sphere)
        requires
            radius.raw > 0,
        ensures
            r.center == center,
            r.radius == radius,
            r.mat_ptr == mat_ptr,
            r.valid(),
    {
        Sphere { center, radius, mat_ptr }
    }

    /// Where the ray hits the sphere within `(min, max)`, if it does.
    pub fn hit(&self, ray: Ray, min: Fixed, max: Fixed) -> (r: Option<HitRecord>)
        ensures
            r == self.hit_spec(ray, min, max),
            r matches Some(record) ==> min.raw < record.t.raw < max.raw && record.p == ray.at(record.t)
                && record.mat_ptr == self.mat_ptr,
    {
        sphere_hit(self.center, self.radius, &self.mat_ptr, &ray, min, max)
    }

    /// The box around the sphere; the times play no part.
    pub fn bounding_box(&self, t0: Fixed, t1: Fixed) -> (r: Option<Aabb>)
        ensures
            r == Some(self.bounds_spec()),
    {
        Some(self.bounds())
    }

    /// The box around the sphere.
    #[verifier::when_used_as_spec(bounds_spec)]
    pub fn bounds(&self) -> (r: Aabb)
        ensures
            r == self.bounds_spec(),
    {
        sphere_box(self.center, self.radius)
    }
}

} // verus!
