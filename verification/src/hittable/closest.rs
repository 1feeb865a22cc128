//! The closest hit: what a flat collection and a tree of boxes both find.
//!
//! An object *answers consistently* when its answer for a shorter interval
//! is its answer for a longer one, kept if it falls into the shorter
//! interval and dropped if not. The shapes of this library do. For such
//! objects a collection reports the least of their distances, and so does
//! a tree over the same objects, as long as each object is hit only at
//! points of its own box: the box test never turns away a ray that is in
//! the box in range, so no box of the tree hides such a hit.

use vstd::prelude::*;
use std::rc::Rc;
use crate::fixed::Fixed;
use crate::fixed::LEAST_RAW;
use crate::hittable::HitRecord;
use crate::hittable::Hittable;
use crate::hittable::HittableList;
use crate::hittable::aabb::lemma_box_is_met;
use crate::hittable::aabb::Aabb;
use crate::hittable::aabb::lemma_holds_in_outer;
use crate::hittable::bvh_node::lemma_tree_box_holds_objects;
use crate::hittable::bvh_node::BvhNode;
use crate::hittable::bvh_node::axis_at_spec;
use crate::hittable::bvh_node::child_node;
use crate::hittable::scan_spec;
use crate::hittable::sorting::box_key_spec;
use crate::hittable::sorting::insert_spec;
use crate::hittable::sorting::lemma_sort_keeps_all;
use crate::hittable::sorting::lemma_sort_len;
use crate::hittable::sorting::sort_spec;
use crate::hittable::sphere::lemma_sphere_roots_ordered;
use crate::ray::Ray;
use crate::vec3::Vec3;

verus! {

/// The parameter of a hit, if there is one.
pub open spec fn distance(hit: Option<HitRecord>) -> Option<int> {
    match hit {
        Some(record) => Some(record.t.raw as int),
        None => None,
    }
}

/// The lesser of two distances, where `None` is no hit at all.
pub open spec fn least(a: Option<int>, b: Option<int>) -> Option<int> {
    match (a, b) {
        (None, _) => b,
        (_, None) => a,
        (Some(x), Some(y)) => if x <= y {
            a
        } else {
            b
        },
    }
}

/// A hit lies at or before the end of the interval.
pub open spec fn keeps_bound(object: Rc<Hittable>, ray: Ray, min: Fixed, max: Fixed) -> bool {
    object.hit_spec(ray, min, max) matches Some(record) ==> record.t.raw <= max.raw
}

/// A hit found up to `far_end` that lies before `near_end` is found up to
/// `near_end` too, at the same distance.
pub open spec fn keeps_under_narrowing(
    object: Rc<Hittable>,
    ray: Ray,
    min: Fixed,
    near_end: Fixed,
    far_end: Fixed,
) -> bool {
    near_end.raw <= far_end.raw ==> (object.hit_spec(ray, min, far_end) matches Some(record)
        ==> record.t.raw < near_end.raw ==> distance(object.hit_spec(ray, min, near_end)) == Some(
        record.t.raw as int,
    ))
}

/// A hit found up to `near_end` is found up to `far_end` too, at the same
/// distance.
pub open spec fn keeps_under_widening(
    object: Rc<Hittable>,
    ray: Ray,
    min: Fixed,
    near_end: Fixed,
    far_end: Fixed,
) -> bool {
    near_end.raw <= far_end.raw && object.hit_spec(ray, min, near_end) is Some ==> distance(
        object.hit_spec(ray, min, far_end),
    ) == distance(object.hit_spec(ray, min, near_end))
}

/// The object's answers to `ray` from `min` on fit together, whatever the
/// end of the interval.
pub open spec fn answers_consistently(object: Rc<Hittable>, ray: Ray, min: Fixed) -> bool {
    &&& forall|max: Fixed| #[trigger] keeps_bound(object, ray, min, max)
    &&& forall|near_end: Fixed, far_end: Fixed| #[trigger]
        keeps_under_narrowing(object, ray, min, near_end, far_end)
    &&& forall|near_end: Fixed, far_end: Fixed| #[trigger]
        keeps_under_widening(object, ray, min, near_end, far_end)
}

/// Every object of the sequence answers consistently.
pub open spec fn all_consistent(objects: Seq<Rc<Hittable>>, ray: Ray, min: Fixed) -> bool {
    forall|i: int| 0 <= i < objects.len() ==> answers_consistently(#[trigger] objects[i], ray, min)
}

/// The least distance at which any of the objects, asked by itself, is
/// hit within the interval.
pub open spec fn closest_spec(objects: Seq<Rc<Hittable>>, ray: Ray, min: Fixed, max: Fixed) -> Option<int>
    decreases objects.len(),
{
    if objects.len() == 0 {
        None
    } else {
        least(
            closest_spec(objects.drop_last(), ray, min, max),
            distance(objects.last().hit_spec(ray, min, max)),
        )
    }
}

/// The least distance lies at or before the end of the interval.
pub proof fn lemma_closest_bound(objects: Seq<Rc<Hittable>>, ray: Ray, min: Fixed, max: Fixed)
    requires
        all_consistent(objects, ray, min),
    ensures
        closest_spec(objects, ray, min, max) matches Some(t) ==> t <= max.raw,
    decreases objects.len(),
{
    if objects.len() > 0 {
        let front = objects.drop_last();
        assert forall|i: int| 0 <= i < front.len() implies answers_consistently(
            #[trigger] front[i],
            ray,
            min,
        ) by {
            assert(front[i] == objects[i]);
        }
        lemma_closest_bound(front, ray, min, max);
        assert(answers_consistently(objects[objects.len() - 1], ray, min));
        assert(keeps_bound(objects.last(), ray, min, max));
    }
}

/// The least distance found up to `far_end`, if it lies before `near_end`,
/// is the least distance found up to `near_end`.
pub proof fn lemma_closest_narrowing(
    objects: Seq<Rc<Hittable>>,
    ray: Ray,
    min: Fixed,
    near_end: Fixed,
    far_end: Fixed,
)
    requires
        all_consistent(objects, ray, min),
        near_end.raw <= far_end.raw,
    ensures
        closest_spec(objects, ray, min, far_end) matches Some(t) ==> t < near_end.raw ==> closest_spec(
            objects,
            ray,
            min,
            near_end,
        ) == Some(t),
        closest_spec(objects, ray, min, near_end) matches Some(t) ==> closest_spec(
            objects,
            ray,
            min,
            far_end,
        ) == Some(t),
    decreases objects.len(),
{
    if objects.len() > 0 {
        let front = objects.drop_last();
        let last = objects.last();
        assert forall|i: int| 0 <= i < front.len() implies answers_consistently(
            #[trigger] front[i],
            ray,
            min,
        ) by {
            assert(front[i] == objects[i]);
        }
        lemma_closest_narrowing(front, ray, min, near_end, far_end);
        lemma_closest_bound(front, ray, min, near_end);
        lemma_closest_bound(front, ray, min, far_end);
        assert(answers_consistently(objects[objects.len() - 1], ray, min));
        assert(keeps_bound(last, ray, min, near_end));
        assert(keeps_bound(last, ray, min, far_end));
        assert(keeps_under_narrowing(last, ray, min, near_end, far_end));
        assert(keeps_under_widening(last, ray, min, near_end, far_end));
    }
}

/// A collection of objects that answer consistently reports the least of
/// their distances.
pub proof fn lemma_scan_finds_closest(objects: Seq<Rc<Hittable>>, ray: Ray, min: Fixed, max: Fixed, n: nat)
    requires
        all_consistent(objects, ray, min),
        n <= objects.len(),
    ensures
        distance(scan_spec(objects, ray, min, max, n)) == closest_spec(
            objects.subrange(0, n as int),
            ray,
            min,
            max,
        ),
    decreases n,
{
    let prefix = objects.subrange(0, n as int);
    if n > 0 {
        let shorter = objects.subrange(0, n - 1);
        assert(prefix.drop_last() =~= shorter);
        assert(prefix.last() == objects[n - 1]);
        lemma_scan_finds_closest(objects, ray, min, max, (n - 1) as nat);
        assert forall|i: int| 0 <= i < shorter.len() implies answers_consistently(
            #[trigger] shorter[i],
            ray,
            min,
        ) by {
            assert(shorter[i] == objects[i]);
        }
        lemma_closest_bound(shorter, ray, min, max);
        let object = objects[n - 1];
        assert(answers_consistently(object, ray, min));
        let before = scan_spec(objects, ray, min, max, (n - 1) as nat);
        let so_far = match before {
            Some(record) => record.t,
            None => max,
        };
        assert(keeps_bound(object, ray, min, so_far));
        assert(keeps_bound(object, ray, min, max));
        assert(keeps_under_narrowing(object, ray, min, so_far, max));
        assert(keeps_under_widening(object, ray, min, so_far, max));
    }
}

/// The object is a sphere, a moving sphere or a rectangle.
pub open spec fn is_shape(object: Rc<Hittable>) -> bool {
    *object is Sphere || *object is MovableSphere || *object is XYRect
}

/// Spheres, moving spheres and rectangles answer consistently.
pub proof fn lemma_shapes_answer_consistently(object: Rc<Hittable>, ray: Ray, min: Fixed)
    requires
        is_shape(object),
    ensures
        answers_consistently(object, ray, min),
{
    match *object {
        Hittable::Sphere(s) => {
            lemma_sphere_roots_ordered(s.center, s.radius, ray);
        },
        Hittable::MovableSphere(s) => {
            lemma_sphere_roots_ordered(s.center_spec(ray.time), s.radius, ray);
        },
        Hittable::XYRect(s) => {},
        Hittable::List(s) => {},
        Hittable::Bvh(s) => {},
    }
    assert forall|max: Fixed| #[trigger] keeps_bound(object, ray, min, max) by {}
    assert forall|near_end: Fixed, far_end: Fixed| #[trigger]
        keeps_under_narrowing(object, ray, min, near_end, far_end) by {}
    assert forall|near_end: Fixed, far_end: Fixed| #[trigger]
        keeps_under_widening(object, ray, min, near_end, far_end) by {}
}

/// The least distance among two groups of objects is the lesser of the
/// least distances of the groups.
pub proof fn lemma_closest_concat(
    a: Seq<Rc<Hittable>>,
    b: Seq<Rc<Hittable>>,
    ray: Ray,
    min: Fixed,
    max: Fixed,
)
    ensures
        closest_spec(a + b, ray, min, max) == least(
            closest_spec(a, ray, min, max),
            closest_spec(b, ray, min, max),
        ),
    decreases b.len(),
{
    if b.len() == 0 {
        assert(a + b =~= a);
    } else {
        assert((a + b).drop_last() =~= a + b.drop_last());
        assert((a + b).last() == b.last());
        lemma_closest_concat(a, b.drop_last(), ray, min, max);
    }
}

/// Putting an object in among others adds its distance to theirs.
pub proof fn lemma_closest_insert(
    sorted: Seq<Rc<Hittable>>,
    x: Rc<Hittable>,
    axis: int,
    ray: Ray,
    min: Fixed,
    max: Fixed,
)
    ensures
        closest_spec(insert_spec(sorted, x, axis), ray, min, max) == least(
            closest_spec(sorted, ray, min, max),
            distance(x.hit_spec(ray, min, max)),
        ),
    decreases sorted.len(),
{
    if sorted.len() == 0 {
        assert(seq![x].drop_last() =~= sorted);
        assert(seq![x].last() == x);
    } else if box_key_spec(sorted.last(), axis) <= box_key_spec(x, axis) {
        assert(sorted.push(x).drop_last() =~= sorted);
        assert(sorted.push(x).last() == x);
    } else {
        let inner = insert_spec(sorted.drop_last(), x, axis);
        lemma_closest_insert(sorted.drop_last(), x, axis, ray, min, max);
        assert(inner.push(sorted.last()).drop_last() =~= inner);
        assert(inner.push(sorted.last()).last() == sorted.last());
    }
}

/// Sorting the objects does not change their least distance.
pub proof fn lemma_closest_sort(objects: Seq<Rc<Hittable>>, axis: int, ray: Ray, min: Fixed, max: Fixed)
    ensures
        closest_spec(sort_spec(objects, axis), ray, min, max) == closest_spec(objects, ray, min, max),
    decreases objects.len(),
{
    if objects.len() > 0 {
        lemma_closest_sort(objects.drop_last(), axis, ray, min, max);
        lemma_closest_insert(sort_spec(objects.drop_last(), axis), objects.last(), axis, ray, min, max);
    }
}

/// A hit that the object reports up to `max` lies at or after `min`, at a
/// point of the ray in the object's own box for the times from `time0` to
/// `time1`.
pub open spec fn hit_sits_in_box(
    object: Rc<Hittable>,
    ray: Ray,
    min: Fixed,
    max: Fixed,
    time0: Fixed,
    time1: Fixed,
) -> bool {
    object.hit_spec(ray, min, max) matches Some(record) ==> min.raw <= record.t.raw && record.t.raw
        >= LEAST_RAW && object.bounds_spec(time0, time1).holds_spec(ray.at_spec(record.t))
}

/// The object is hit by `ray` only from `min` on and only at points of
/// its own box, whatever the end of the interval. In exact arithmetic every
/// shape is; in rounded arithmetic a shape may report a hit a little
/// outside.
pub open spec fn sits_in_box(object: Rc<Hittable>, ray: Ray, min: Fixed, time0: Fixed, time1: Fixed) -> bool {
    forall|max: Fixed| #[trigger] hit_sits_in_box(object, ray, min, max, time0, time1)
}

/// Every object is hit only at points of its own box.
pub open spec fn all_sit_in_boxes(
    objects: Seq<Rc<Hittable>>,
    ray: Ray,
    min: Fixed,
    time0: Fixed,
    time1: Fixed,
) -> bool {
    forall|i: int| 0 <= i < objects.len() ==> sits_in_box(#[trigger] objects[i], ray, min, time0, time1)
}

/// For an object that answers consistently one test settles where it is
/// hit: if its hit up to the greatest value lies in its own box, so does
/// its hit up to any other end.
pub proof fn lemma_one_test_settles(object: Rc<Hittable>, ray: Ray, min: Fixed, time0: Fixed, time1: Fixed)
    requires
        answers_consistently(object, ray, min),
        hit_sits_in_box(object, ray, min, Fixed::max_value_spec(), time0, time1),
    ensures
        sits_in_box(object, ray, min, time0, time1),
{
    assert forall|max: Fixed| #[trigger] hit_sits_in_box(object, ray, min, max, time0, time1) by {
        assert(keeps_under_widening(object, ray, min, max, Fixed::max_value_spec()));
    }
}

/// Whether the hit of `ray` on the object, from `min` on, lies at a point
/// of the object's own box; yes where there is no hit. For a shape this
/// settles that the ray hits it only in its box.
pub fn hit_is_in_box(object: &Rc<Hittable>, ray: Ray, min: Fixed, time0: Fixed, time1: Fixed) -> (r: bool)
    ensures
        r == hit_sits_in_box(*object, ray, min, Fixed::max_value_spec(), time0, time1),
        r && is_shape(*object) ==> sits_in_box(*object, ray, min, time0, time1),
{
    let bounds = match object.bounding_box(time0, time1) {
        Some(b) => b,
        None => Aabb::new(Vec3::zero(), Vec3::zero()),
    };
    let r = match object.hit(ray, min, Fixed::max_value()) {
        Some(record) => min.raw <= record.t.raw && record.t.raw >= LEAST_RAW && bounds.holds(
            ray.at(record.t),
        ),
        None => true,
    };
    proof {
        if r && is_shape(*object) {
            lemma_shapes_answer_consistently(*object, ray, min);
            lemma_one_test_settles(*object, ray, min, time0, time1);
        }
    }
    r
}

/// The least distance of some objects is not above the distance of any
/// of them.
pub proof fn lemma_closest_is_least(objects: Seq<Rc<Hittable>>, ray: Ray, min: Fixed, max: Fixed, i: int)
    requires
        0 <= i < objects.len(),
        objects[i].hit_spec(ray, min, max) is Some,
    ensures
        closest_spec(objects, ray, min, max) matches Some(t) && t <= objects[i].hit_spec(
            ray,
            min,
            max,
        )->Some_0.t.raw,
    decreases objects.len(),
{
    if i < objects.len() - 1 {
        assert(objects.drop_last()[i] == objects[i]);
        lemma_closest_is_least(objects.drop_last(), ray, min, max, i);
    }
}

/// The least distance of some objects is the distance of one of them.
pub proof fn lemma_closest_is_of_one(objects: Seq<Rc<Hittable>>, ray: Ray, min: Fixed, max: Fixed) -> (i:
    int)
    requires
        closest_spec(objects, ray, min, max) is Some,
    ensures
        0 <= i < objects.len(),
        distance(objects[i].hit_spec(ray, min, max)) == closest_spec(objects, ray, min, max),
    decreases objects.len(),
{
    let front = objects.drop_last();
    let last = distance(objects.last().hit_spec(ray, min, max));
    if closest_spec(objects, ray, min, max) == last {
        objects.len() - 1
    } else {
        let i = lemma_closest_is_of_one(front, ray, min, max);
        assert(front[i] == objects[i]);
        i
    }
}

/// A box of the tree that the ray misses holds no object that is hit:
/// none of the objects under the node is hit within the interval for
/// which the node's box was missed.
pub proof fn lemma_missed_box_hides_nothing(
    node: BvhNode,
    objects: Seq<Rc<Hittable>>,
    axes: Seq<u8>,
    start: int,
    time0: Fixed,
    time1: Fixed,
    ray: Ray,
    min: Fixed,
    max: Fixed,
)
    requires
        node.built_from(objects, axes, start, time0, time1),
        all_consistent(objects, ray, min),
        all_sit_in_boxes(objects, ray, min, time0, time1),
        min.raw < max.raw,
        !node.bounding_box.hit_spec(ray, min, max),
    ensures
        closest_spec(objects, ray, min, max) is None,
{
    if closest_spec(objects, ray, min, max) is Some {
        let i = lemma_closest_is_of_one(objects, ray, min, max);
        let object = objects[i];
        let record = object.hit_spec(ray, min, max)->Some_0;
        assert(answers_consistently(object, ray, min));
        assert(keeps_bound(object, ray, min, max));
        assert(sits_in_box(object, ray, min, time0, time1));
        assert(hit_sits_in_box(object, ray, min, max, time0, time1));
        lemma_tree_box_holds_objects(node, objects, axes, start, time0, time1);
        lemma_holds_in_outer(
            node.bounding_box,
            object.bounds_spec(time0, time1),
            ray.at_spec(record.t),
        );
        lemma_box_is_met(node.bounding_box, ray, min, max, record.t);
    }
}

/// No object is hit before `min`, so the least distance is not before it.
pub proof fn lemma_closest_starts_at_min(
    objects: Seq<Rc<Hittable>>,
    ray: Ray,
    min: Fixed,
    max: Fixed,
    time0: Fixed,
    time1: Fixed,
)
    requires
        all_sit_in_boxes(objects, ray, min, time0, time1),
    ensures
        closest_spec(objects, ray, min, max) matches Some(t) ==> min.raw <= t,
{
    if closest_spec(objects, ray, min, max) is Some {
        let i = lemma_closest_is_of_one(objects, ray, min, max);
        assert(sits_in_box(objects[i], ray, min, time0, time1));
        assert(hit_sits_in_box(objects[i], ray, min, max, time0, time1));
    }
}

/// Every sorted object is one of the objects.
proof fn lemma_sorted_is_of_objects(objects: Seq<Rc<Hittable>>, axis: int, i: int) -> (j: int)
    requires
        0 <= i < sort_spec(objects, axis).len(),
    ensures
        0 <= j < objects.len(),
        objects[j] == sort_spec(objects, axis)[i],
{
    let holds = |o: Rc<Hittable>| objects.contains(o);
    assert forall|k: int| 0 <= k < objects.len() implies holds(#[trigger] objects[k]) by {
        assert(objects.contains(objects[k]));
    }
    lemma_sort_keeps_all(objects, axis, holds);
    assert(holds(sort_spec(objects, axis)[i]));
    choose|j: int| 0 <= j < objects.len() && objects[j] == sort_spec(objects, axis)[i]
}

/// What a node over objects reports is what one of its two children
/// reports, for an end of the interval that is not after `max`.
proof fn lemma_node_hit_is_of_child(node: BvhNode, ray: Ray, min: Fixed, max: Fixed) -> (w: (
    bool,
    Fixed,
))
    requires
        node.hit_spec(ray, min, max) is Some,
        node.left.hit_spec(ray, min, max) matches Some(record) ==> record.t.raw <= max.raw,
    ensures
        w.1.raw <= max.raw,
        w.0 ==> node.left.hit_spec(ray, min, w.1) == node.hit_spec(ray, min, max),
        !w.0 ==> node.right.hit_spec(ray, min, w.1) == node.hit_spec(ray, min, max),
        w.0 ==> w.1 == max,
        !w.0 ==> w.1 == max || (node.left.hit_spec(ray, min, max) matches Some(record) && w.1
            == record.t),
{
    match node.left.hit_spec(ray, min, max) {
        Some(near) => match node.right.hit_spec(ray, min, near.t) {
            Some(record) => (false, near.t),
            None => (true, max),
        },
        None => (false, max),
    }
}

/// What a node over one or two objects reports is what one of them
/// reports, asked by itself for an interval that ends no later.
proof fn lemma_leaf_hit_stems(
    node: BvhNode,
    objects: Seq<Rc<Hittable>>,
    axes: Seq<u8>,
    start: int,
    time0: Fixed,
    time1: Fixed,
    ray: Ray,
    min: Fixed,
    max: Fixed,
) -> (w: (int, Fixed))
    requires
        node.built_from(objects, axes, start, time0, time1),
        objects.len() <= 2,
        all_consistent(objects, ray, min),
        node.hit_spec(ray, min, max) is Some,
    ensures
        0 <= w.0 < objects.len(),
        w.1.raw <= max.raw,
        objects[w.0].hit_spec(ray, min, w.1) == node.hit_spec(ray, min, max),
{
    assert(answers_consistently(objects[0], ray, min));
    assert(keeps_bound(objects[0], ray, min, max));
    if objects.len() == 2 {
        assert(answers_consistently(objects[1], ray, min));
        assert(keeps_bound(objects[1], ray, min, max));
    }
    let side = lemma_node_hit_is_of_child(node, ray, min, max);
    let child = if side.0 {
        node.left
    } else {
        node.right
    };
    let k: int = if child == objects[0] {
        0
    } else {
        1
    };
    (k, side.1)
}

/// The halves of the sorted objects are consistent.
proof fn lemma_halves_are_consistent(objects: Seq<Rc<Hittable>>, axis: int, ray: Ray, min: Fixed)
    requires
        all_consistent(objects, ray, min),
    ensures
        sort_spec(objects, axis).len() == objects.len(),
        all_consistent(sort_spec(objects, axis).subrange(0, objects.len() as int / 2), ray, min),
        all_consistent(
            sort_spec(objects, axis).subrange(objects.len() as int / 2, objects.len() as int),
            ray,
            min,
        ),
{
    lemma_halves(objects, axis, ray, min, min);
}

/// The halves of the sorted objects are hit only in their boxes.
proof fn lemma_halves_sit_in_boxes(
    objects: Seq<Rc<Hittable>>,
    axis: int,
    ray: Ray,
    min: Fixed,
    time0: Fixed,
    time1: Fixed,
)
    requires
        all_sit_in_boxes(objects, ray, min, time0, time1),
    ensures
        all_sit_in_boxes(
            sort_spec(objects, axis).subrange(0, objects.len() as int / 2),
            ray,
            min,
            time0,
            time1,
        ),
        all_sit_in_boxes(
            sort_spec(objects, axis).subrange(objects.len() as int / 2, objects.len() as int),
            ray,
            min,
            time0,
            time1,
        ),
{
    let n = objects.len() as int;
    let mid = n / 2;
    let sorted = sort_spec(objects, axis);
    let lower = sorted.subrange(0, mid);
    let upper = sorted.subrange(mid, n);
    lemma_sort_len(objects, axis);
    lemma_sort_keeps_all(objects, axis, |o: Rc<Hittable>| sits_in_box(o, ray, min, time0, time1));
    assert forall|i: int| 0 <= i < lower.len() implies sits_in_box(
        #[trigger] lower[i],
        ray,
        min,
        time0,
        time1,
    ) by {
        assert(lower[i] == sorted[i]);
    }
    assert forall|i: int| 0 <= i < upper.len() implies sits_in_box(
        #[trigger] upper[i],
        ray,
        min,
        time0,
        time1,
    ) by {
        assert(upper[i] == sorted[mid + i]);
    }
}

/// What a tree reports is what one of its objects reports, asked by
/// itself for an interval that ends no later.
proof fn lemma_tree_hit_stems(
    node: BvhNode,
    objects: Seq<Rc<Hittable>>,
    axes: Seq<u8>,
    start: int,
    time0: Fixed,
    time1: Fixed,
    ray: Ray,
    min: Fixed,
    max: Fixed,
) -> (w: (int, Fixed))
    requires
        node.built_from(objects, axes, start, time0, time1),
        all_consistent(objects, ray, min),
        node.hit_spec(ray, min, max) is Some,
    ensures
        0 <= w.0 < objects.len(),
        w.1.raw <= max.raw,
        objects[w.0].hit_spec(ray, min, w.1) == node.hit_spec(ray, min, max),
        node.hit_spec(ray, min, max)->Some_0.t.raw <= w.1.raw,
    decreases objects.len(),
{
    let n = objects.len() as int;
    let axis = axis_at_spec(axes, start + n / 2);
    let sorted = sort_spec(objects, axis);
    let mid = n / 2;
    let w: (int, Fixed);
    if n <= 2 {
        w = lemma_leaf_hit_stems(node, objects, axes, start, time0, time1, ray, min, max);
    } else {
        let lower = sorted.subrange(0, mid);
        let upper = sorted.subrange(mid, n);
        lemma_halves_are_consistent(objects, axis, ray, min);
        let l = child_node(node.left);
        let r = child_node(node.right);
        if node.left.hit_spec(ray, min, max) is Some {
            let inner = lemma_tree_hit_stems(l, lower, axes, start, time0, time1, ray, min, max);
        }
        let side = lemma_node_hit_is_of_child(node, ray, min, max);
        if side.0 {
            let inner = lemma_tree_hit_stems(l, lower, axes, start, time0, time1, ray, min, side.1);
            assert(lower[inner.0] == sorted[inner.0]);
            let j = lemma_sorted_is_of_objects(objects, axis, inner.0);
            w = (j, inner.1);
        } else {
            let inner = lemma_tree_hit_stems(r, upper, axes, start + mid, time0, time1, ray, min, side.1);
            assert(upper[inner.0] == sorted[mid + inner.0]);
            let j = lemma_sorted_is_of_objects(objects, axis, mid + inner.0);
            w = (j, inner.1);
        }
    }
    assert(answers_consistently(objects[w.0], ray, min));
    assert(keeps_bound(objects[w.0], ray, min, w.1));
    w
}

/// The tree invents no hit: what a tree reports is what one of its
/// objects reports, asked by itself for an interval that ends no later.
/// So the hit lies from `min` to `max`, at a point of the tree's box.
pub proof fn lemma_tree_hit_is_of_one(
    node: BvhNode,
    objects: Seq<Rc<Hittable>>,
    axes: Seq<u8>,
    start: int,
    time0: Fixed,
    time1: Fixed,
    ray: Ray,
    min: Fixed,
    max: Fixed,
) -> (w: (int, Fixed))
    requires
        node.built_from(objects, axes, start, time0, time1),
        all_consistent(objects, ray, min),
        all_sit_in_boxes(objects, ray, min, time0, time1),
        node.hit_spec(ray, min, max) is Some,
    ensures
        0 <= w.0 < objects.len(),
        w.1.raw <= max.raw,
        objects[w.0].hit_spec(ray, min, w.1) == node.hit_spec(ray, min, max),
        min.raw <= node.hit_spec(ray, min, max)->Some_0.t.raw <= w.1.raw,
        node.hit_spec(ray, min, max)->Some_0.t.raw >= LEAST_RAW,
        node.bounding_box.holds_spec(ray.at_spec(node.hit_spec(ray, min, max)->Some_0.t)),
{
    let w = lemma_tree_hit_stems(node, objects, axes, start, time0, time1, ray, min, max);
    let object = objects[w.0];
    assert(sits_in_box(object, ray, min, time0, time1));
    assert(hit_sits_in_box(object, ray, min, w.1, time0, time1));
    lemma_tree_box_holds_objects(node, objects, axes, start, time0, time1);
    lemma_holds_in_outer(
        node.bounding_box,
        object.bounds_spec(time0, time1),
        ray.at_spec(node.hit_spec(ray, min, max)->Some_0.t),
    );
    w
}

/// Where the left half of a node is hit at `min` itself, the right half
/// has nothing nearer: whatever it reports up to `min` lies at `min`, and
/// none of its objects is hit before.
proof fn lemma_nothing_before_min(
    right: BvhNode,
    upper: Seq<Rc<Hittable>>,
    axes: Seq<u8>,
    start: int,
    time0: Fixed,
    time1: Fixed,
    ray: Ray,
    min: Fixed,
    max: Fixed,
)
    requires
        right.built_from(upper, axes, start, time0, time1),
        all_consistent(upper, ray, min),
        all_sit_in_boxes(upper, ray, min, time0, time1),
    ensures
        right.hit_spec(ray, min, min) matches Some(other) ==> other.t == min,
        closest_spec(upper, ray, min, max) matches Some(t) ==> min.raw <= t,
{
    lemma_closest_starts_at_min(upper, ray, min, max, time0, time1);
    if right.hit_spec(ray, min, min) is Some {
        let of = lemma_tree_hit_is_of_one(right, upper, axes, start, time0, time1, ray, min, min);
    }
}

/// What a node reports when its box is hit and each child reports the
/// least distance of a group of consistent objects: the least distance of
/// both groups. Where the left child is hit at `min` itself, nothing is
/// left to ask the right child for, and nothing of it is needed.
proof fn lemma_node_combines(
    node: BvhNode,
    lower: Seq<Rc<Hittable>>,
    upper: Seq<Rc<Hittable>>,
    ray: Ray,
    min: Fixed,
    max: Fixed,
)
    requires
        node.bounding_box.hit_spec(ray, min, max),
        all_consistent(lower, ray, min),
        all_consistent(upper, ray, min),
        distance(node.left.hit_spec(ray, min, max)) == closest_spec(lower, ray, min, max),
        node.left.hit_spec(ray, min, max) matches Some(record) ==> record.t.raw <= max.raw && (distance(
            node.right.hit_spec(ray, min, record.t),
        ) == closest_spec(upper, ray, min, record.t) || (record.t == min && (node.right.hit_spec(
            ray,
            min,
            record.t,
        ) matches Some(other) ==> other.t == min) && (closest_spec(upper, ray, min, max) matches Some(
            t,
        ) ==> min.raw <= t))),
        node.left.hit_spec(ray, min, max) is None ==> distance(node.right.hit_spec(ray, min, max))
            == closest_spec(upper, ray, min, max),
    ensures
        distance(node.hit_spec(ray, min, max)) == least(
            closest_spec(lower, ray, min, max),
            closest_spec(upper, ray, min, max),
        ),
{
    match node.left.hit_spec(ray, min, max) {
        Some(record) => {
            lemma_closest_narrowing(upper, ray, min, record.t, max);
            lemma_closest_bound(upper, ray, min, record.t);
        },
        None => {},
    }
}

/// The least distance of one object is its own.
proof fn lemma_closest_single(objects: Seq<Rc<Hittable>>, ray: Ray, min: Fixed, max: Fixed)
    requires
        objects.len() == 1,
    ensures
        closest_spec(objects, ray, min, max) == distance(objects[0].hit_spec(ray, min, max)),
{
    assert(objects.drop_last().len() == 0);
    assert(closest_spec(objects.drop_last(), ray, min, max) is None);
}

/// What a node over one or two objects reports when its box is hit: the
/// lesser of the distances of its two children.
proof fn lemma_node_of_objects(node: BvhNode, ray: Ray, min: Fixed, max: Fixed)
    requires
        node.bounding_box.hit_spec(ray, min, max),
        answers_consistently(node.left, ray, min),
        answers_consistently(node.right, ray, min),
    ensures
        distance(node.hit_spec(ray, min, max)) == least(
            distance(node.left.hit_spec(ray, min, max)),
            distance(node.right.hit_spec(ray, min, max)),
        ),
{
    let lower = seq![node.left];
    let upper = seq![node.right];
    lemma_closest_single(lower, ray, min, max);
    lemma_closest_single(upper, ray, min, max);
    match node.left.hit_spec(ray, min, max) {
        Some(record) => {
            assert(keeps_bound(node.left, ray, min, max));
            lemma_closest_single(upper, ray, min, record.t);
        },
        None => {},
    }
    lemma_node_combines(node, lower, upper, ray, min, max);
}

/// The least distance of two objects is the lesser of their distances.
proof fn lemma_closest_pair(objects: Seq<Rc<Hittable>>, ray: Ray, min: Fixed, max: Fixed)
    requires
        objects.len() == 2,
    ensures
        closest_spec(objects, ray, min, max) == least(
            distance(objects[0].hit_spec(ray, min, max)),
            distance(objects[1].hit_spec(ray, min, max)),
        ),
{
    let first = seq![objects[0]];
    let second = seq![objects[1]];
    assert(first + second =~= objects);
    lemma_closest_concat(first, second, ray, min, max);
    lemma_closest_single(first, ray, min, max);
    lemma_closest_single(second, ray, min, max);
}

/// The two halves of the sorted objects are consistent, and their least
/// distances make up that of the objects.
proof fn lemma_halves(objects: Seq<Rc<Hittable>>, axis: int, ray: Ray, min: Fixed, max: Fixed)
    requires
        all_consistent(objects, ray, min),
    ensures
        sort_spec(objects, axis).len() == objects.len(),
        all_consistent(sort_spec(objects, axis).subrange(0, objects.len() as int / 2), ray, min),
        all_consistent(
            sort_spec(objects, axis).subrange(objects.len() as int / 2, objects.len() as int),
            ray,
            min,
        ),
        closest_spec(objects, ray, min, max) == least(
            closest_spec(sort_spec(objects, axis).subrange(0, objects.len() as int / 2), ray, min, max),
            closest_spec(
                sort_spec(objects, axis).subrange(objects.len() as int / 2, objects.len() as int),
                ray,
                min,
                max,
            ),
        ),
{
    let n = objects.len() as int;
    let mid = n / 2;
    let sorted = sort_spec(objects, axis);
    let lower = sorted.subrange(0, mid);
    let upper = sorted.subrange(mid, n);
    lemma_sort_len(objects, axis);
    lemma_sort_keeps_all(objects, axis, |o: Rc<Hittable>| answers_consistently(o, ray, min));
    assert forall|i: int| 0 <= i < lower.len() implies answers_consistently(
        #[trigger] lower[i],
        ray,
        min,
    ) by {
        assert(lower[i] == sorted[i]);
    }
    assert forall|i: int| 0 <= i < upper.len() implies answers_consistently(
        #[trigger] upper[i],
        ray,
        min,
    ) by {
        assert(upper[i] == sorted[mid + i]);
    }
    assert(lower + upper =~= sorted);
    lemma_closest_concat(lower, upper, ray, min, max);
    lemma_closest_sort(objects, axis, ray, min, max);
}

/// What a node over three or more objects reports, given what its two
/// halves report: the least distance of all the objects.
proof fn lemma_inner_node_finds_closest(
    node: BvhNode,
    objects: Seq<Rc<Hittable>>,
    axes: Seq<u8>,
    start: int,
    time0: Fixed,
    time1: Fixed,
    ray: Ray,
    min: Fixed,
    max: Fixed,
    left: BvhNode,
    right: BvhNode,
    lower: Seq<Rc<Hittable>>,
    upper: Seq<Rc<Hittable>>,
)
    requires
        node.bounding_box.hit_spec(ray, min, max),
        *node.left == Hittable::Bvh(left),
        *node.right == Hittable::Bvh(right),
        left.built_from(lower, axes, start, time0, time1),
        right.built_from(upper, axes, start + objects.len() as int / 2, time0, time1),
        all_consistent(lower, ray, min),
        all_consistent(upper, ray, min),
        all_sit_in_boxes(lower, ray, min, time0, time1),
        all_sit_in_boxes(upper, ray, min, time0, time1),
        closest_spec(objects, ray, min, max) == least(
            closest_spec(lower, ray, min, max),
            closest_spec(upper, ray, min, max),
        ),
        distance(left.hit_spec(ray, min, max)) == closest_spec(lower, ray, min, max),
        left.hit_spec(ray, min, max) matches Some(record) ==> min.raw < record.t.raw ==> distance(
            right.hit_spec(ray, min, record.t),
        ) == closest_spec(upper, ray, min, record.t),
        left.hit_spec(ray, min, max) is None ==> distance(right.hit_spec(ray, min, max)) == closest_spec(
            upper,
            ray,
            min,
            max,
        ),
    ensures
        distance(node.hit_spec(ray, min, max)) == closest_spec(objects, ray, min, max),
{
    lemma_closest_bound(lower, ray, min, max);
    match left.hit_spec(ray, min, max) {
        Some(record) => {
            lemma_closest_starts_at_min(lower, ray, min, max, time0, time1);
            if min.raw >= record.t.raw {
                assert(record.t == min);
                lemma_nothing_before_min(
                    right,
                    upper,
                    axes,
                    start + objects.len() as int / 2,
                    time0,
                    time1,
                    ray,
                    min,
                    max,
                );
            }
        },
        None => {},
    }
    lemma_node_combines(node, lower, upper, ray, min, max);
}

/// A tree built of consistent objects, each hit only at points of its own
/// box, reports the least of their distances.
pub proof fn lemma_tree_finds_closest(
    node: BvhNode,
    objects: Seq<Rc<Hittable>>,
    axes: Seq<u8>,
    start: int,
    time0: Fixed,
    time1: Fixed,
    ray: Ray,
    min: Fixed,
    max: Fixed,
)
    requires
        node.built_from(objects, axes, start, time0, time1),
        all_consistent(objects, ray, min),
        all_sit_in_boxes(objects, ray, min, time0, time1),
        min.raw < max.raw,
    ensures
        distance(node.hit_spec(ray, min, max)) == closest_spec(objects, ray, min, max),
    decreases objects.len(),
{
    let n = objects.len() as int;
    let axis = axis_at_spec(axes, start + n / 2);
    let mid = n / 2;
    if !node.bounding_box.hit_spec(ray, min, max) {
        lemma_missed_box_hides_nothing(node, objects, axes, start, time0, time1, ray, min, max);
    } else if n == 1 {
        assert(answers_consistently(objects[0], ray, min));
        lemma_closest_single(objects, ray, min, max);
        lemma_node_of_objects(node, ray, min, max);
    } else if n == 2 {
        assert(answers_consistently(objects[0], ray, min));
        assert(answers_consistently(objects[1], ray, min));
        lemma_closest_pair(objects, ray, min, max);
        lemma_node_of_objects(node, ray, min, max);
    } else {
        let sorted = sort_spec(objects, axis);
        let lower = sorted.subrange(0, mid);
        let upper = sorted.subrange(mid, n);
        lemma_halves(objects, axis, ray, min, max);
        lemma_halves_sit_in_boxes(objects, axis, ray, min, time0, time1);
        let l = child_node(node.left);
        let r = child_node(node.right);
        lemma_tree_finds_closest(l, lower, axes, start, time0, time1, ray, min, max);
        match l.hit_spec(ray, min, max) {
            Some(record) => {
                if min.raw < record.t.raw {
                    lemma_tree_finds_closest(
                        r,
                        upper,
                        axes,
                        start + mid,
                        time0,
                        time1,
                        ray,
                        min,
                        record.t,
                    );
                }
            },
            None => {
                lemma_tree_finds_closest(r, upper, axes, start + mid, time0, time1, ray, min, max);
            },
        }
        lemma_inner_node_finds_closest(
            node,
            objects,
            axes,
            start,
            time0,
            time1,
            ray,
            min,
            max,
            l,
            r,
            lower,
            upper,
        );
    }
}

/// The hit that a tree reports is the closest: no object under the tree,
/// asked by itself for the same interval, is hit nearer; and the hit lies
/// from `min` to `max`.
pub proof fn lemma_tree_hit_is_nearest(
    node: BvhNode,
    objects: Seq<Rc<Hittable>>,
    axes: Seq<u8>,
    start: int,
    time0: Fixed,
    time1: Fixed,
    ray: Ray,
    min: Fixed,
    max: Fixed,
    i: int,
)
    requires
        node.built_from(objects, axes, start, time0, time1),
        all_consistent(objects, ray, min),
        all_sit_in_boxes(objects, ray, min, time0, time1),
        min.raw < max.raw,
        0 <= i < objects.len(),
    ensures
        node.hit_spec(ray, min, max) matches Some(record) ==> min.raw <= record.t.raw <= max.raw,
        objects[i].hit_spec(ray, min, max) matches Some(other) ==> (node.hit_spec(ray, min, max) matches Some(
            record,
        ) && record.t.raw <= other.t.raw),
{
    lemma_tree_finds_closest(node, objects, axes, start, time0, time1, ray, min, max);
    if objects[i].hit_spec(ray, min, max) is Some {
        lemma_closest_is_least(objects, ray, min, max, i);
    }
    if node.hit_spec(ray, min, max) is Some {
        let from = lemma_tree_hit_is_of_one(node, objects, axes, start, time0, time1, ray, min, max);
    }
}

/// A tree over objects that answer consistently and are hit only in their
/// boxes is such an object itself: it answers consistently, and it is hit
/// only at points of its own box. So trees may stand in collections and
/// under other trees.
pub proof fn lemma_tree_is_well_behaved(
    object: Rc<Hittable>,
    node: BvhNode,
    objects: Seq<Rc<Hittable>>,
    axes: Seq<u8>,
    start: int,
    time0: Fixed,
    time1: Fixed,
    ray: Ray,
    min: Fixed,
)
    requires
        *object == Hittable::Bvh(node),
        node.built_from(objects, axes, start, time0, time1),
        all_consistent(objects, ray, min),
        all_sit_in_boxes(objects, ray, min, time0, time1),
    ensures
        answers_consistently(object, ray, min),
        sits_in_box(object, ray, min, time0, time1),
{
    assert forall|max: Fixed| #[trigger] keeps_bound(object, ray, min, max) by {
        if node.hit_spec(ray, min, max) is Some {
            let from = lemma_tree_hit_is_of_one(node, objects, axes, start, time0, time1, ray, min, max);
        }
    }
    assert forall|max: Fixed| #[trigger] hit_sits_in_box(object, ray, min, max, time0, time1) by {
        if node.hit_spec(ray, min, max) is Some {
            let from = lemma_tree_hit_is_of_one(node, objects, axes, start, time0, time1, ray, min, max);
        }
    }
    assert forall|near_end: Fixed, far_end: Fixed| #[trigger]
        keeps_under_narrowing(object, ray, min, near_end, far_end) by {
        if near_end.raw <= far_end.raw && node.hit_spec(ray, min, far_end) is Some {
            let from = lemma_tree_hit_is_of_one(node, objects, axes, start, time0, time1, ray, min, far_end);
            if node.hit_spec(ray, min, far_end)->Some_0.t.raw < near_end.raw {
                lemma_tree_finds_closest(node, objects, axes, start, time0, time1, ray, min, near_end);
                lemma_tree_finds_closest(node, objects, axes, start, time0, time1, ray, min, far_end);
                lemma_closest_narrowing(objects, ray, min, near_end, far_end);
            }
        }
    }
    assert forall|near_end: Fixed, far_end: Fixed| #[trigger]
        keeps_under_widening(object, ray, min, near_end, far_end) by {
        if near_end.raw <= far_end.raw && node.hit_spec(ray, min, near_end) is Some {
            let from = lemma_tree_hit_is_of_one(node, objects, axes, start, time0, time1, ray, min, near_end);
            if min.raw < near_end.raw {
                lemma_tree_finds_closest(node, objects, axes, start, time0, time1, ray, min, near_end);
                lemma_tree_finds_closest(node, objects, axes, start, time0, time1, ray, min, far_end);
                lemma_closest_narrowing(objects, ray, min, near_end, far_end);
            } else if near_end.raw < far_end.raw {
                let one = objects[from.0];
                assert(answers_consistently(one, ray, min));
                assert(keeps_under_widening(one, ray, min, from.1, far_end));
                lemma_tree_finds_closest(node, objects, axes, start, time0, time1, ray, min, far_end);
                lemma_closest_is_least(objects, ray, min, far_end, from.0);
                lemma_closest_starts_at_min(objects, ray, min, far_end, time0, time1);
            } else {
                assert(near_end == far_end);
            }
        }
    }
}

/// A tree of boxes and a flat collection over the same objects report
/// the same distance, or both report no hit: for objects that answer
/// consistently, as the shapes do, and that are hit only at points of
/// their own boxes.
pub proof fn lemma_tree_agrees_with_list(
    node: BvhNode,
    list: HittableList,
    axes: Seq<u8>,
    time0: Fixed,
    time1: Fixed,
    ray: Ray,
    min: Fixed,
    max: Fixed,
)
    requires
        node.built_from(list.objects@, axes, 0, time0, time1),
        all_consistent(list.objects@, ray, min),
        all_sit_in_boxes(list.objects@, ray, min, time0, time1),
        min.raw < max.raw,
    ensures
        distance(node.hit_spec(ray, min, max)) == distance(list.hit_spec(ray, min, max)),
{
    lemma_tree_finds_closest(node, list.objects@, axes, 0, time0, time1, ray, min, max);
    lemma_list_finds_closest(list, ray, min, max);
}

/// The distance that a collection reports is the least of the distances
/// of its objects, when these answer consistently.
pub proof fn lemma_list_finds_closest(list: HittableList, ray: Ray, min: Fixed, max: Fixed)
    requires
        all_consistent(list.objects@, ray, min),
    ensures
        distance(list.hit_spec(ray, min, max)) == closest_spec(list.objects@, ray, min, max),
{
    lemma_scan_finds_closest(list.objects@, ray, min, max, list.objects@.len());
    assert(list.objects@.subrange(0, list.objects@.len() as int) =~= list.objects@);
}

/// A collection of objects that answer consistently answers consistently.
pub proof fn lemma_list_answers_consistently(
    object: Rc<Hittable>,
    list: HittableList,
    ray: Ray,
    min: Fixed,
)
    requires
        *object == Hittable::List(list),
        all_consistent(list.objects@, ray, min),
    ensures
        answers_consistently(object, ray, min),
{
    assert forall|max: Fixed| #[trigger] keeps_bound(object, ray, min, max) by {
        lemma_list_finds_closest(list, ray, min, max);
        lemma_closest_bound(list.objects@, ray, min, max);
    }
    assert forall|near_end: Fixed, far_end: Fixed| #[trigger]
        keeps_under_narrowing(object, ray, min, near_end, far_end) by {
        lemma_list_finds_closest(list, ray, min, near_end);
        lemma_list_finds_closest(list, ray, min, far_end);
        if near_end.raw <= far_end.raw {
            lemma_closest_narrowing(list.objects@, ray, min, near_end, far_end);
        }
    }
    assert forall|near_end: Fixed, far_end: Fixed| #[trigger]
        keeps_under_widening(object, ray, min, near_end, far_end) by {
        lemma_list_finds_closest(list, ray, min, near_end);
        lemma_list_finds_closest(list, ray, min, far_end);
        if near_end.raw <= far_end.raw {
            lemma_closest_narrowing(list.objects@, ray, min, near_end, far_end);
        }
    }
}

/// Every object is a sphere, a moving sphere or a rectangle.
pub open spec fn all_shapes(objects: Seq<Rc<Hittable>>) -> bool {
    forall|i: int| 0 <= i < objects.len() ==> is_shape(#[trigger] objects[i])
}

/// A tree of boxes over spheres, moving spheres and rectangles reports
/// the same distance as the flat collection of the same shapes, or both
/// report no hit, where the ray hits each shape only at points of the
/// shape's own box.
pub proof fn lemma_tree_of_shapes_agrees_with_list(
    node: BvhNode,
    list: HittableList,
    axes: Seq<u8>,
    time0: Fixed,
    time1: Fixed,
    ray: Ray,
    min: Fixed,
    max: Fixed,
)
    requires
        node.built_from(list.objects@, axes, 0, time0, time1),
        all_shapes(list.objects@),
        all_sit_in_boxes(list.objects@, ray, min, time0, time1),
        min.raw < max.raw,
    ensures
        distance(node.hit_spec(ray, min, max)) == distance(list.hit_spec(ray, min, max)),
{
    assert forall|i: int| 0 <= i < list.objects@.len() implies answers_consistently(
        #[trigger] list.objects@[i],
        ray,
        min,
    ) by {
        lemma_shapes_answer_consistently(list.objects@[i], ray, min);
    }
    lemma_tree_agrees_with_list(node, list, axes, time0, time1, ray, min, max);
}

} // verus!
