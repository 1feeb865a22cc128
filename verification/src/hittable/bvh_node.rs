//! Bounding volume hierarchies.

use vstd::prelude::*;
use std::rc::Rc;
use crate::fixed::Fixed;
use crate::handle::share;
use crate::hittable::aabb::Aabb;
use crate::hittable::sorting::box_key;
use crate::hittable::sorting::box_key_spec;
use crate::hittable::sorting::lemma_sort_keeps_all;
use crate::hittable::sorting::lemma_sort_len;
use crate::hittable::sorting::lemma_sort_loses_none;
use crate::hittable::sorting::sort_by_axis;
use crate::hittable::sorting::sort_spec;
use crate::hittable::HitRecord;
use crate::hittable::Hittable;
use crate::hittable::HittableList;
use crate::random::RandomSource;
use crate::ray::Ray;

verus! {

/// The object has a box for the times from `time0` to `time1`, and one
/// at time zero, by which the builder orders it.
pub open spec fn has_boxes(object: Rc<Hittable>, time0: Fixed, time1: Fixed) -> bool {
    object.bounding_box_spec(time0, time1) is Some && object.bounding_box_spec(
        Fixed::zero(),
        Fixed::zero(),
    ) is Some
}

/// Every object has its boxes.
pub open spec fn all_have_boxes(objects: Seq<Rc<Hittable>>, time0: Fixed, time1: Fixed) -> bool {
    forall|i: int| 0 <= i < objects.len() ==> has_boxes(#[trigger] objects[i], time0, time1)
}

/// The axis, 0 to 2, that the plan `axes` gives at place `i`: the entry
/// modulo three, and the x axis beyond the plan's end.
pub open spec fn axis_at_spec(axes: Seq<u8>, i: int) -> int {
    if 0 <= i < axes.len() {
        (axes[i] % 3) as int
    } else {
        0
    }
}

/// A node of a binary tree of boxes: two children and the box around
/// both. The tree is built once and only read afterwards.
pub struct BvhNode {
    pub left: Rc<Hittable>,
    pub right: Rc<Hittable>,
    pub bounding_box: Aabb,
}

impl BvhNode {
    /// The hit that the node reports. A ray that misses the node's box
    /// hits nothing. Otherwise the left child is asked; the right child is
    /// then asked for a hit up to the left one, or up to `max` when the
    /// left reported none, and the right child's hit is preferred.
    pub open spec fn hit_spec(&self, ray: Ray, min: Fixed, max: Fixed) -> Option<HitRecord>
        decreases self,
    {
        if !self.bounding_box.hit_spec(ray, min, max) {
            None
        } else {
            match self.left.hit_spec(ray, min, max) {
                Some(near) => match self.right.hit_spec(ray, min, near.t) {
                    Some(record) => Some(record),
                    None => Some(near),
                },
                None => self.right.hit_spec(ray, min, max),
            }
        }
    }

    /// The closest hit under the node, if the ray hits the node's box.
    pub fn hit(&self, ray: Ray, min: Fixed, max: Fixed) -> (r: Option<HitRecord>)
        ensures
            r == self.hit_spec(ray, min, max),
        decreases self,
    {
        if !self.bounding_box.hit(&ray, min, max) {
            return None;
        }
        match self.left.hit(ray, min, max) {
            Some(near) => {
                let max = near.t;
                match self.right.hit(ray, min, max) {
                    Some(record) => Some(record),
                    None => Some(near),
                }
            },
            None => self.right.hit(ray, min, max),
        }
    }

    /// The node is the tree that the builder makes of `objects`, with the
    /// axes of the plan `axes` read from place `start`.
    ///
    /// One object is both children. Two objects are the children in the
    /// order of their keys, the first one left only if its key is the
    /// smaller. Three or more are sorted along the node's axis and split
    /// in the middle, and each half is made into a tree of its own. The
    /// node's axis is that at the place of its middle object, and its box
    /// is the merger of its children's boxes for the times given.
    pub open spec fn built_from(
        &self,
        objects: Seq<Rc<Hittable>>,
        axes: Seq<u8>,
        start: int,
        time0: Fixed,
        time1: Fixed,
    ) -> bool
        decreases objects.len(),
    {
        let n = objects.len() as int;
        let axis = axis_at_spec(axes, start + n / 2);
        let sorted = sort_spec(objects, axis);
        let mid = n / 2;
        &&& n >= 1
        &&& self.bounding_box == Aabb::surrounding_box_spec(
            self.left.bounds_spec(time0, time1),
            self.right.bounds_spec(time0, time1),
        )
        &&& n == 1 ==> self.left == objects[0] && self.right == objects[0]
        &&& n == 2 ==> if box_key_spec(objects[0], axis) < box_key_spec(objects[1], axis) {
            self.left == objects[0] && self.right == objects[1]
        } else {
            self.left == objects[1] && self.right == objects[0]
        }
        &&& n >= 3 ==> {
            &&& sorted.len() == n
            &&& *self.left matches Hittable::Bvh(l) && l.built_from(
                sorted.subrange(0, mid),
                axes,
                start,
                time0,
                time1,
            )
            &&& *self.right matches Hittable::Bvh(r) && r.built_from(
                sorted.subrange(mid, n),
                axes,
                start + mid,
                time0,
                time1,
            )
        }
    }

    /// The tree over the objects of `list`, with its axes drawn from `rng`:
    /// whatever is drawn, the tree is the one that `with_axes` makes for
    /// some plan of axes.
    pub fn new(list: HittableList, time0: Fixed, time1: Fixed, rng: &mut RandomSource) -> (r: BvhNode)
        requires
            list.objects@.len() >= 1,
            all_have_boxes(list.objects@, time0, time1),
        ensures
            exists|axes: Seq<u8>| #[trigger] r.built_from(list.objects@, axes, 0, time0, time1),
    {
        let mut axes: Vec<u8> = Vec::new();
        let mut i: usize = 0;
        while i < list.objects.len()
            invariant
                i <= list.objects@.len(),
                axes@.len() == i,
            decreases list.objects@.len() - i,
        {
            let axis: i64 = rng.range(0, 3);
            axes.push(axis as u8);
            i = i + 1;
        }
        BvhNode::create(list.objects, &axes, 0, time0, time1)
    }

    /// The tree over the objects of `list`, with the axes of the plan
    /// `axes`.
    pub fn with_axes(list: HittableList, axes: &Vec<u8>, time0: Fixed, time1: Fixed) -> (r: BvhNode)
        requires
            list.objects@.len() >= 1,
            all_have_boxes(list.objects@, time0, time1),
        ensures
            r.built_from(list.objects@, axes@, 0, time0, time1),
    {
        let count = list.len();
        assert(0 + count <= usize::MAX);
        BvhNode::create(list.objects, axes, 0, time0, time1)
    }

    /// The tree over `objects`, with the axes of the plan read from `start`.
    fn create(objects: Vec<Rc<Hittable>>, axes: &Vec<u8>, start: usize, time0: Fixed, time1: Fixed) -> (r:
        BvhNode)
        requires
            objects@.len() >= 1,
            start + objects@.len() <= usize::MAX,
            all_have_boxes(objects@, time0, time1),
        ensures
            r.built_from(objects@, axes@, start as int, time0, time1),
        decreases objects@.len(),
    {
        let n = objects.len();
        let axis = axis_at(axes, start + n / 2);
        assert(has_boxes(objects@[0], time0, time1));
        let (left, right): (Rc<Hittable>, Rc<Hittable>) = if n == 1 {
            (share(&objects[0]), share(&objects[0]))
        } else if n == 2 {
            assert(has_boxes(objects@[1], time0, time1));
            if box_key(&objects[0], axis).raw < box_key(&objects[1], axis).raw {
                (share(&objects[0]), share(&objects[1]))
            } else {
                (share(&objects[1]), share(&objects[0]))
            }
        } else {
            let sorted = sort_by_axis(&objects, axis);
            proof {
                lemma_sort_len(objects@, axis as int);
                lemma_sort_keeps_all(
                    objects@,
                    axis as int,
                    |o: Rc<Hittable>| has_boxes(o, time0, time1),
                );
            }
            let mid = n / 2;
            let mut lower: Vec<Rc<Hittable>> = Vec::new();
            let mut upper: Vec<Rc<Hittable>> = Vec::new();
            let mut i: usize = 0;
            while i < n
                invariant
                    i <= n,
                    n == sorted@.len(),
                    mid == n / 2,
                    lower@ == sorted@.subrange(0, if i < mid { i as int } else { mid as int }),
                    upper@ == sorted@.subrange(mid as int, if i < mid { mid as int } else { i as int }),
                    forall|k: int| 0 <= k < sorted@.len() ==> has_boxes(#[trigger] sorted@[k], time0, time1),
                    all_have_boxes(lower@, time0, time1),
                    all_have_boxes(upper@, time0, time1),
                decreases n - i,
            {
                if i < mid {
                    lower.push(share(&sorted[i]));
                } else {
                    upper.push(share(&sorted[i]));
                }
                i = i + 1;
            }
            let left = BvhNode::create(lower, axes, start, time0, time1);
            let right = BvhNode::create(upper, axes, start + mid, time0, time1);
            (Rc::new(Hittable::Bvh(left)), Rc::new(Hittable::Bvh(right)))
        };
        let box_left = left.bounds(time0, time1);
        let box_right = right.bounds(time0, time1);
        let bounding_box = Aabb::surrounding_box(box_left, box_right);
        BvhNode { left, right, bounding_box }
    }

    /// The box of the subtree, as it was computed when the tree was built.
    pub fn bounding_box(&self, t0: Fixed, t1: Fixed) -> (r: Option<Aabb>)
        ensures
            r == Some(self.bounding_box),
    {
        Some(self.bounding_box)
    }
}

/// The box of a tree built of objects with well-formed boxes is well
/// formed.
pub proof fn lemma_tree_box_well_formed(
    node: BvhNode,
    objects: Seq<Rc<Hittable>>,
    axes: Seq<u8>,
    start: int,
    time0: Fixed,
    time1: Fixed,
)
    requires
        node.built_from(objects, axes, start, time0, time1),
        forall|i: int| 0 <= i < objects.len() ==> (#[trigger] objects[i]).bounds_spec(time0, time1).well_formed(),
    ensures
        node.bounding_box.well_formed(),
    decreases objects.len(),
{
    let n = objects.len() as int;
    if n >= 3 {
        let axis = axis_at_spec(axes, start + n / 2);
        let sorted = sort_spec(objects, axis);
        let mid = n / 2;
        let lower = sorted.subrange(0, mid);
        let upper = sorted.subrange(mid, n);
        let holds = |o: Rc<Hittable>| o.bounds_spec(time0, time1).well_formed();
        assert forall|i: int| 0 <= i < objects.len() implies holds(#[trigger] objects[i]) by {
            assert(objects[i].bounds_spec(time0, time1).well_formed());
        }
        lemma_sort_keeps_all(objects, axis, holds);
        assert forall|i: int| 0 <= i < lower.len() implies (#[trigger] lower[i]).bounds_spec(
            time0,
            time1,
        ).well_formed() by {
            assert(holds(sorted[i]));
        }
        assert forall|i: int| 0 <= i < upper.len() implies (#[trigger] upper[i]).bounds_spec(
            time0,
            time1,
        ).well_formed() by {
            assert(holds(sorted[mid + i]));
        }
        lemma_tree_box_well_formed(child_node(node.left), lower, axes, start, time0, time1);
        lemma_tree_box_well_formed(child_node(node.right), upper, axes, start + mid, time0, time1);
    } else if n == 2 {
        assert(objects[0].bounds_spec(time0, time1).well_formed());
        assert(objects[1].bounds_spec(time0, time1).well_formed());
    } else {
        assert(objects[0].bounds_spec(time0, time1).well_formed());
    }
}

/// The box of a tree holds the box of every object that the tree was
/// built of.
pub proof fn lemma_tree_box_holds_objects(
    node: BvhNode,
    objects: Seq<Rc<Hittable>>,
    axes: Seq<u8>,
    start: int,
    time0: Fixed,
    time1: Fixed,
)
    requires
        node.built_from(objects, axes, start, time0, time1),
    ensures
        forall|i: int|
            0 <= i < objects.len() ==> node.bounding_box.contains(
                (#[trigger] objects[i]).bounds_spec(time0, time1),
            ),
    decreases objects.len(),
{
    let n = objects.len() as int;
    if n >= 3 {
        let axis = axis_at_spec(axes, start + n / 2);
        let sorted = sort_spec(objects, axis);
        let mid = n / 2;
        let lower = sorted.subrange(0, mid);
        let upper = sorted.subrange(mid, n);
        lemma_tree_box_holds_objects(child_node(node.left), lower, axes, start, time0, time1);
        lemma_tree_box_holds_objects(child_node(node.right), upper, axes, start + mid, time0, time1);
        let holds = |o: Rc<Hittable>| node.bounding_box.contains(o.bounds_spec(time0, time1));
        assert forall|k: int| 0 <= k < sorted.len() implies holds(#[trigger] sorted[k]) by {
            if k < mid {
                assert(lower[k] == sorted[k]);
                assert(child_node(node.left).bounding_box.contains(lower[k].bounds_spec(time0, time1)));
            } else {
                assert(upper[k - mid] == sorted[k]);
                assert(child_node(node.right).bounding_box.contains(
                    upper[k - mid].bounds_spec(time0, time1),
                ));
            }
        }
        lemma_sort_loses_none(objects, axis, holds);
        assert forall|i: int| 0 <= i < objects.len() implies node.bounding_box.contains(
            (#[trigger] objects[i]).bounds_spec(time0, time1),
        ) by {
            assert(holds(objects[i]));
        }
    }
}

/// The box of a tree is the least that holds its objects: every box that
/// holds the box of each object holds the box of the tree.
pub proof fn lemma_tree_box_is_least(
    node: BvhNode,
    objects: Seq<Rc<Hittable>>,
    axes: Seq<u8>,
    start: int,
    time0: Fixed,
    time1: Fixed,
    outer: Aabb,
)
    requires
        node.built_from(objects, axes, start, time0, time1),
        forall|i: int|
            0 <= i < objects.len() ==> outer.contains((#[trigger] objects[i]).bounds_spec(time0, time1)),
    ensures
        outer.contains(node.bounding_box),
    decreases objects.len(),
{
    let n = objects.len() as int;
    if n >= 3 {
        let axis = axis_at_spec(axes, start + n / 2);
        let sorted = sort_spec(objects, axis);
        let mid = n / 2;
        let lower = sorted.subrange(0, mid);
        let upper = sorted.subrange(mid, n);
        let holds = |o: Rc<Hittable>| outer.contains(o.bounds_spec(time0, time1));
        assert forall|i: int| 0 <= i < objects.len() implies holds(#[trigger] objects[i]) by {
            assert(outer.contains(objects[i].bounds_spec(time0, time1)));
        }
        lemma_sort_keeps_all(objects, axis, holds);
        assert forall|i: int| 0 <= i < lower.len() implies outer.contains(
            (#[trigger] lower[i]).bounds_spec(time0, time1),
        ) by {
            assert(holds(sorted[i]));
        }
        assert forall|i: int| 0 <= i < upper.len() implies outer.contains(
            (#[trigger] upper[i]).bounds_spec(time0, time1),
        ) by {
            assert(holds(sorted[mid + i]));
        }
        lemma_tree_box_is_least(child_node(node.left), lower, axes, start, time0, time1, outer);
        lemma_tree_box_is_least(child_node(node.right), upper, axes, start + mid, time0, time1, outer);
    } else if n == 2 {
        assert(outer.contains(objects[0].bounds_spec(time0, time1)));
        assert(outer.contains(objects[1].bounds_spec(time0, time1)));
    } else {
        assert(outer.contains(objects[0].bounds_spec(time0, time1)));
    }
}

/// The node of a child that is a tree.
pub open spec fn child_node(child: Rc<Hittable>) -> BvhNode {
    child->Bvh_0
}

/// The axis that the plan gives at place `i`.
fn axis_at(axes: &Vec<u8>, i: usize) -> (r: usize)
    ensures
        r as int == axis_at_spec(axes@, i as int),
        r < 3,
{
    if i < axes.len() {
        (axes[i] % 3) as usize
    } else {
        0
    }
}

} // verus!
