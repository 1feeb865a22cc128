//! Rectangles that lie in a plane of constant z.

use vstd::prelude::*;
use std::rc::Rc;
use crate::fixed::Fixed;
use crate::hittable::aabb::Aabb;
use crate::hittable::HitRecord;
use crate::material::Material;
use crate::ray::Ray;
use crate::vec3::Vec3;

verus! {

/// Half the thickness of the box around a rectangle: a ten-thousandth.
pub const PADDING_RAW: i64 = 100;

/// The rectangle `[x0, x1] x [y0, y1]` in the plane `z = k`.
pub struct XYRect {
    pub x0: Fixed,
    pub x1: Fixed,
    pub y0: Fixed,
    pub y1: Fixed,
    pub k: Fixed,
    pub mat_ptr: Rc<Material>,
}

impl XYRect {
    /// The rectangle has a positive width and a positive height.
    pub open spec fn valid(&self) -> bool {
        self.x0.raw < self.x1.raw && self.y0.raw < self.y1.raw
    }

    /// The parameter at which the ray crosses the plane: `(k - O.z) / D.z`.
    pub open spec fn plane_t_spec(&self, ray: Ray) -> Fixed {
        self.k.sub(ray.origin.2).div(ray.dir.2)
    }

    /// The hit of the ray within `[min, max]`: none for a ray along the
    /// plane, for a crossing outside the interval, or for one outside the
    /// rectangle. The outward normal is `(0, 0, 1)`, and the surface
    /// coordinates run from zero to one across the rectangle.
    pub open spec fn hit_spec(&self, ray: Ray, min: Fixed, max: Fixed) -> Option<HitRecord> {
        let t = self.plane_t_spec(ray);
        let x = ray.origin.0.add(t.mul(ray.dir.0));
        let y = ray.origin.1.add(t.mul(ray.dir.1));
        if ray.dir.2.raw == 0 || t.raw < min.raw || t.raw > max.raw {
            None
        } else if x.raw < self.x0.raw || x.raw > self.x1.raw || y.raw < self.y0.raw || y.raw
            > self.y1.raw {
            None
        } else {
            Some(
                HitRecord::new_spec(
                    ray.at(t),
                    t,
                    x.sub(self.x0).div(self.x1.sub(self.x0)),
                    y.sub(self.y0).div(self.y1.sub(self.y0)),
                    Vec3::from_ints(0, 0, 1),
                    self.mat_ptr,
                    ray,
                ),
            )
        }
    }

    /// The box of the rectangle, given thickness by the padding to either
    /// side of the plane.
    pub open spec fn bounds_spec(&self) -> Aabb {
        Aabb {
            min: Vec3(self.x0, self.y0, self.k.sub(Fixed { raw: PADDING_RAW })),
            max: Vec3(self.x1, self.y1, self.k.add(Fixed { raw: PADDING_RAW })),
        }
    }

    /// The rectangle `[x0, x1] x [y0, y1]` in the plane `z = k`.
    pub fn new(x0: Fixed, x1: Fixed, y0: Fixed, y1: Fixed, k: Fixed, mat_ptr: Rc<Material>) -> (r:
        XYRect)
        requires
            x0.raw < x1.raw,
            y0.raw < y1.raw,
        ensures
            r.x0 == x0,
            r.x1 == x1,
            r.y0 == y0,
            r.y1 == y1,
            r.k == k,
            r.mat_ptr == mat_ptr,
            r.valid(),
    {
        XYRect { x0, x1, y0, y1, k, mat_ptr }
    }

    /// Where the ray hits the rectangle within `[min, max]`, if it does.
    pub fn hit(&self, ray: Ray, min: Fixed, max: Fixed) -> (r: Option<HitRecord>)
        ensures
            r == self.hit_spec(ray, min, max),
            r matches Some(record) ==> min.raw <= record.t.raw <= max.raw && record.p == ray.at(
                record.t,
            ) && record.mat_ptr == self.mat_ptr,
    {
        if ray.direction().z().raw == 0 {
            return None;
        }
        let t = self.k.sub(ray.origin().z()).div(ray.direction().z());
        if t.raw < min.raw || t.raw > max.raw {
            return None;
        }
        let x = ray.origin().x().add(t.mul(ray.direction().x()));
        let y = ray.origin().y().add(t.mul(ray.direction().y()));
        if x.raw < self.x0.raw || x.raw > self.x1.raw || y.raw < self.y0.raw || y.raw > self.y1.raw {
            return None;
        }
        let u = x.sub(self.x0).div(self.x1.sub(self.x0));
        let v = y.sub(self.y0).div(self.y1.sub(self.y0));
        let outward_normal = Vec3::from_ints(0, 0, 1);
        let p = ray.at(t);
        Some(HitRecord::new(p, t, u, v, outward_normal, &self.mat_ptr, &ray))
    }

    /// The box around the rectangle; the times play no part.
    pub fn bounding_box(&self, t0: Fixed, t1: Fixed) -> (r: Option<Aabb>)
        ensures
            r == Some(self.bounds_spec()),
    {
        Some(self.bounds())
    }

    /// The box around the rectangle.
    #[verifier::when_used_as_spec(bounds_spec)]
    pub fn bounds(&self) -> (r: Aabb)
        ensures
            r == self.bounds_spec(),
    {
        Aabb::new(
            Vec3(self.x0, self.y0, self.k.sub(Fixed { raw: PADDING_RAW })),
            Vec3(self.x1, self.y1, self.k.add(Fixed { raw: PADDING_RAW })),
        )
    }
}

} // verus!
