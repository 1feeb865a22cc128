//! Things a ray can hit.

use vstd::prelude::*;
use std::rc::Rc;
use crate::fixed::Fixed;
use crate::handle::share;
use crate::hittable::aabb::Aabb;
use crate::hittable::bvh_node::BvhNode;
use crate::hittable::movable_sphere::MovableSphere;
use crate::hittable::rectangle::XYRect;
use crate::hittable::sphere::Sphere;
use crate::material::Material;
use crate::ray::Ray;
use crate::vec3::lemma_dot_neg;
use crate::vec3::Vec3;

pub mod aabb;
pub mod bvh_node;
pub mod closest;
pub mod movable_sphere;
pub mod rectangle;
pub mod sorting;
pub mod sphere;

verus! {

/// Where and how a ray met a surface.
pub struct HitRecord {
    /// The point of the hit.
    pub p: Vec3,
    /// The surface normal there, turned against the ray.
    pub normal: Vec3,
    /// The material of the surface.
    pub mat_ptr: Rc<Material>,
    /// The ray's parameter at the hit.
    pub t: Fixed,
    /// The surface coordinates of the hit, for textures.
    pub u: Fixed,
    pub v: Fixed,
    /// Whether the ray came from outside.
    pub front_face: bool,
}

impl HitRecord {
    /// The record of a hit. The ray comes from outside when it runs
    /// against the outward normal; the normal kept is the one that faces
    /// the ray.
    pub open spec fn new_spec(
        p: Vec3,
        t: Fixed,
        u: Fixed,
        v: Fixed,
        outward_normal: Vec3,
        mat_ptr: Rc<Material>,
        ray: Ray,
    ) -> HitRecord {
        let front_face = Vec3::dot(ray.dir, outward_normal).raw < 0;
        HitRecord {
            p,
            t,
            u,
            v,
            normal: if front_face {
                outward_normal
            } else {
                outward_normal.neg()
            },
            front_face,
            mat_ptr,
        }
    }

    /// The record of a hit at `p`, with the normal turned against `ray`:
    /// the ray never runs along the normal that is kept. The outward
    /// normal must have a negative, which every computed vector has.
    pub fn new(
        p: Vec3,
        t: Fixed,
        u: Fixed,
        v: Fixed,
        outward_normal: Vec3,
        mat_ptr: &Rc<Material>,
        ray: &Ray,
    ) -> (r: HitRecord)
        requires
            outward_normal.has_negative(),
        ensures
            r == HitRecord::new_spec(p, t, u, v, outward_normal, *mat_ptr, *ray),
            Vec3::dot_spec(ray.dir, r.normal).raw <= 0,
            r.normal.has_negative(),
    {
        proof {
            lemma_record_faces_ray(p, t, u, v, outward_normal, *mat_ptr, *ray);
        }
        let front_face = Vec3::dot(ray.direction(), outward_normal).raw < 0;
        let normal = if front_face {
            outward_normal
        } else {
            outward_normal.neg()
        };
        HitRecord { p, t, u, v, normal, front_face, mat_ptr: share(mat_ptr) }
    }
}

/// The normal of a record is turned against the ray: their dot product
/// is never positive.
pub proof fn lemma_record_faces_ray(
    p: Vec3,
    t: Fixed,
    u: Fixed,
    v: Fixed,
    outward_normal: Vec3,
    mat_ptr: Rc<Material>,
    ray: Ray,
)
    requires
        outward_normal.has_negative(),
    ensures
        Vec3::dot_spec(ray.dir, HitRecord::new_spec(p, t, u, v, outward_normal, mat_ptr, ray).normal).raw
            <= 0,
        HitRecord::new_spec(p, t, u, v, outward_normal, mat_ptr, ray).normal.has_negative(),
{
    lemma_dot_neg(ray.dir, outward_normal);
}

/// Any shape, or a tree of shapes.
pub enum Hittable {
    Sphere(Sphere),
    MovableSphere(MovableSphere),
    XYRect(XYRect),
    List(HittableList),
    Bvh(BvhNode),
}

impl Hittable {
    /// The hit of the ray on the shape within the interval from `min` to
    /// `max`, as the shape defines it.
    pub open spec fn hit_spec(&self, ray: Ray, min: Fixed, max: Fixed) -> Option<HitRecord>
        decreases self,
    {
        match self {
            Hittable::Sphere(s) => s.hit_spec(ray, min, max),
            Hittable::MovableSphere(s) => s.hit_spec(ray, min, max),
            Hittable::XYRect(s) => s.hit_spec(ray, min, max),
            Hittable::List(s) => s.hit_spec(ray, min, max),
            Hittable::Bvh(s) => s.hit_spec(ray, min, max),
        }
    }

    /// The box that holds the object at all times from `t0` to `t1`. A
    /// collection may have none.
    pub open spec fn bounding_box_spec(&self, t0: Fixed, t1: Fixed) -> Option<Aabb>
        decreases self,
    {
        match self {
            Hittable::Sphere(s) => Some(s.bounds_spec()),
            Hittable::MovableSphere(s) => Some(s.bounds_spec(t0, t1)),
            Hittable::XYRect(s) => Some(s.bounds_spec()),
            Hittable::List(s) => s.bounding_box_spec(t0, t1),
            Hittable::Bvh(s) => Some(s.bounding_box),
        }
    }

    /// The box of an object that has one.
    pub open spec fn bounds_spec(&self, t0: Fixed, t1: Fixed) -> Aabb
        recommends
            self.bounding_box_spec(t0, t1) is Some,
    {
        match self.bounding_box_spec(t0, t1) {
            Some(b) => b,
            None => Aabb { min: Vec3::zero(), max: Vec3::zero() },
        }
    }

    /// The object is a shape with valid measures: its own test for a
    /// sphere, a moving sphere or a rectangle, and never for a tree.
    pub open spec fn is_valid_shape(&self) -> bool {
        match self {
            Hittable::Sphere(s) => s.valid(),
            Hittable::MovableSphere(s) => s.valid(),
            Hittable::XYRect(s) => s.valid(),
            Hittable::List(s) => false,
            Hittable::Bvh(s) => false,
        }
    }

    /// The hit of the ray on the object within the interval from `min`
    /// to `max`.
    pub fn hit(&self, ray: Ray, min: Fixed, max: Fixed) -> (r: Option<HitRecord>)
        ensures
            r == self.hit_spec(ray, min, max),
        decreases self,
    {
        match self {
            Hittable::Sphere(s) => s.hit(ray, min, max),
            Hittable::MovableSphere(s) => s.hit(ray, min, max),
            Hittable::XYRect(s) => s.hit(ray, min, max),
            Hittable::List(s) => s.hit(ray, min, max),
            Hittable::Bvh(s) => s.hit(ray, min, max),
        }
    }

    /// The box of the object, if it has one.
    pub fn bounding_box(&self, t0: Fixed, t1: Fixed) -> (r: Option<Aabb>)
        ensures
            r == self.bounding_box_spec(t0, t1),
        decreases self,
    {
        match self {
            Hittable::Sphere(s) => s.bounding_box(t0, t1),
            Hittable::MovableSphere(s) => s.bounding_box(t0, t1),
            Hittable::XYRect(s) => s.bounding_box(t0, t1),
            Hittable::List(s) => s.bounding_box(t0, t1),
            Hittable::Bvh(s) => s.bounding_box(t0, t1),
        }
    }

    /// The box of an object that has one.
    pub fn bounds(&self, t0: Fixed, t1: Fixed) -> (r: Aabb)
        requires
            self.bounding_box_spec(t0, t1) is Some,
        ensures
            r == self.bounds_spec(t0, t1),
    {
        match self.bounding_box(t0, t1) {
            Some(b) => b,
            None => Aabb::new(Vec3::zero(), Vec3::zero()),
        }
    }
}

/// What the first `n` objects of a collection answer to a ray: each
/// object in turn is asked for a hit between `min` and the closest hit so
/// far (`max` while there is none), and a hit that it reports becomes the
/// closest.
pub open spec fn scan_spec(objects: Seq<Rc<Hittable>>, ray: Ray, min: Fixed, max: Fixed, n: nat) -> Option<
    HitRecord,
>
    decreases objects, n,
{
    if n > objects.len() {
        None
    } else
    if n == 0 {
        None
    } else {
        let before = scan_spec(objects, ray, min, max, (n - 1) as nat);
        let closest = match before {
            Some(record) => record.t,
            None => max,
        };
        match objects[n - 1].hit_spec(ray, min, closest) {
            Some(record) => Some(record),
            None => before,
        }
    }
}

/// The merger of the boxes of the first `n` objects: none for no
/// objects, and none as soon as one of the objects has none.
pub open spec fn merged_bounds_spec(objects: Seq<Rc<Hittable>>, t0: Fixed, t1: Fixed, n: nat) -> Option<
    Aabb,
>
    decreases objects, n,
{
    if n == 0 || n > objects.len() {
        None
    } else if n == 1 {
        objects[0].bounding_box_spec(t0, t1)
    } else {
        match (
            merged_bounds_spec(objects, t0, t1, (n - 1) as nat),
            objects[n - 1].bounding_box_spec(t0, t1),
        ) {
            (Some(so_far), Some(next)) => Some(Aabb::surrounding_box_spec(so_far, next)),
            _ => None,
        }
    }
}

/// A flat collection of shapes, asked one after the other.
pub struct HittableList {
    pub objects: Vec<Rc<Hittable>>,
}

impl HittableList {
    /// The closest hit that the collection reports: the outcome of asking
    /// every object, in order.
    pub open spec fn hit_spec(&self, ray: Ray, min: Fixed, max: Fixed) -> Option<HitRecord>
        decreases self,
    {
        scan_spec(self.objects@, ray, min, max, self.objects@.len())
    }

    /// The box of the whole collection: the merger of the boxes of its
    /// objects. An empty collection has none, and so has a collection one
    /// of whose objects has none.
    pub open spec fn bounding_box_spec(&self, t0: Fixed, t1: Fixed) -> Option<Aabb>
        decreases self,
    {
        merged_bounds_spec(self.objects@, t0, t1, self.objects@.len())
    }

    /// An empty collection.
    pub fn new() -> (r: HittableList)
        ensures
            r.objects@.len() == 0,
    {
        HittableList { objects: Vec::new() }
    }

    /// Adds an object at the end.
    pub fn push(&mut self, object: Rc<Hittable>)
        ensures
            final(self).objects@ == old(self).objects@.push(object),
    {
        self.objects.push(object);
    }

    /// The number of objects.
    pub fn len(&self) -> (r: usize)
        ensures
            r == self.objects@.len(),
    {
        self.objects.len()
    }

    /// Whether the collection holds no object.
    pub fn is_empty(&self) -> (r: bool)
        ensures
            r == (self.objects@.len() == 0),
    {
        self.objects.len() == 0
    }

    /// The closest hit among all the objects, if any is hit.
    pub fn hit(&self, ray: Ray, min: Fixed, max: Fixed) -> (r: Option<HitRecord>)
        ensures
            r == self.hit_spec(ray, min, max),
            self.objects@.len() == 0 ==> r is None,
        decreases self,
    {
        let mut hit_anything: Option<HitRecord> = None;
        let mut closest_so_far = max;
        let mut i: usize = 0;
        while i < self.objects.len()
            invariant
                i <= self.objects@.len(),
                hit_anything == scan_spec(self.objects@, ray, min, max, i as nat),
                closest_so_far == match hit_anything {
                    Some(record) => record.t,
                    None => max,
                },
            decreases self.objects@.len() - i,
        {
            match self.objects[i].hit(ray, min, closest_so_far) {
                Some(record) => {
                    closest_so_far = record.t;
                    hit_anything = Some(record);
                },
                None => {},
            }
            i = i + 1;
        }
        hit_anything
    }

    /// The box around all the objects, if all have one; `None` for an
    /// empty collection.
    pub fn bounding_box(&self, t0: Fixed, t1: Fixed) -> (r: Option<Aabb>)
        ensures
            r == self.bounding_box_spec(t0, t1),
            self.objects@.len() == 0 ==> r is None,
        decreases self,
    {
        if self.objects.len() == 0 {
            return None;
        }
        let mut output_box = match self.objects[0].bounding_box(t0, t1) {
            Some(b) => b,
            None => {
                proof {
                    lemma_merged_bounds_stay_none(self.objects@, t0, t1, 1, self.objects@.len());
                }
                return None;
            },
        };
        let mut i: usize = 1;
        while i < self.objects.len()
            invariant
                1 <= i <= self.objects@.len(),
                Some(output_box) == merged_bounds_spec(self.objects@, t0, t1, i as nat),
            decreases self.objects@.len() - i,
        {
            let temp_box = match self.objects[i].bounding_box(t0, t1) {
                Some(b) => b,
                None => {
                    proof {
                        lemma_merged_bounds_stay_none(self.objects@, t0, t1, (i + 1) as nat, self.objects@.len());
                    }
                    return None;
                },
            };
            output_box = Aabb::surrounding_box(output_box, temp_box);
            i = i + 1;
        }
        Some(output_box)
    }
}

/// Once the merger of the boxes has failed it stays failed.
proof fn lemma_merged_bounds_stay_none(objects: Seq<Rc<Hittable>>, t0: Fixed, t1: Fixed, n: nat, m: nat)
    requires
        1 <= n <= m <= objects.len(),
        merged_bounds_spec(objects, t0, t1, n) is None,
    ensures
        merged_bounds_spec(objects, t0, t1, m) is None,
    decreases m,
{
    if n < m {
        lemma_merged_bounds_stay_none(objects, t0, t1, n, (m - 1) as nat);
    }
}

/// The box of a valid shape is well formed: its least corner is not
/// above its greatest on any axis.
pub proof fn lemma_shape_box_well_formed(object: Hittable, t0: Fixed, t1: Fixed)
    requires
        object.is_valid_shape(),
    ensures
        object.bounding_box_spec(t0, t1) is Some,
        object.bounds_spec(t0, t1).well_formed(),
{
}

} // verus!
