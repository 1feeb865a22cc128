//! The order of objects along an axis.
//!
//! The builder of a tree sorts its objects by the least corner of their
//! boxes. The sort is a stable insertion sort: objects of equal keys stay
//! in the order in which they came.

use vstd::prelude::*;
use std::rc::Rc;
use crate::fixed::Fixed;
use crate::handle::share;
use crate::hittable::Hittable;

verus! {

/// The number by which the builder orders an object along an axis: the
/// least coordinate, on that axis, of the object's box at time zero.
pub open spec fn box_key_spec(object: Rc<Hittable>, axis: int) -> int {
    object.bounds_spec(Fixed::zero(), Fixed::zero()).min.get_spec(axis as usize).raw as int
}

/// The key of an object along an axis.
pub(crate) fn box_key(object: &Rc<Hittable>, axis: usize) -> (r: Fixed)
    requires
        axis < 3,
        object.bounding_box_spec(Fixed::zero(), Fixed::zero()) is Some,
    ensures
        r.raw as int == box_key_spec(*object, axis as int),
{
    object.bounds(Fixed::zero(), Fixed::zero()).min().get(axis)
}

/// `sorted` with `x` put in behind the last object whose key is not
/// greater than that of `x`.
pub open spec fn insert_spec(sorted: Seq<Rc<Hittable>>, x: Rc<Hittable>, axis: int) -> Seq<
    Rc<Hittable>,
>
    decreases sorted.len(),
{
    if sorted.len() == 0 {
        seq![x]
    } else if box_key_spec(sorted.last(), axis) <= box_key_spec(x, axis) {
        sorted.push(x)
    } else {
        insert_spec(sorted.drop_last(), x, axis).push(sorted.last())
    }
}

/// The objects in the order of their keys along `axis`, objects of equal
/// keys in the order in which they came.
pub open spec fn sort_spec(objects: Seq<Rc<Hittable>>, axis: int) -> Seq<Rc<Hittable>>
    decreases objects.len(),
{
    if objects.len() == 0 {
        Seq::empty()
    } else {
        insert_spec(sort_spec(objects.drop_last(), axis), objects.last(), axis)
    }
}

/// A stable insertion sort along `axis`.
pub(crate) fn sort_by_axis(objects: &Vec<Rc<Hittable>>, axis: usize) -> (r: Vec<Rc<Hittable>>)
    requires
        axis < 3,
        forall|i: int|
            0 <= i < objects@.len() ==> (#[trigger] objects@[i]).bounding_box_spec(
                Fixed::zero(),
                Fixed::zero(),
            ) is Some,
    ensures
        r@ == sort_spec(objects@, axis as int),
{
    let mut out: Vec<Rc<Hittable>> = Vec::new();
    let mut i: usize = 0;
    assert(objects@.subrange(0, 0) =~= Seq::empty());
    while i < objects.len()
        invariant
            i <= objects@.len(),
            axis < 3,
            out@ == sort_spec(objects@.subrange(0, i as int), axis as int),
            forall|k: int|
                0 <= k < objects@.len() ==> (#[trigger] objects@[k]).bounding_box_spec(
                    Fixed::zero(),
                    Fixed::zero(),
                ) is Some,
            forall|k: int|
                0 <= k < out@.len() ==> (#[trigger] out@[k]).bounding_box_spec(
                    Fixed::zero(),
                    Fixed::zero(),
                ) is Some,
        decreases objects@.len() - i,
    {
        let x = share(&objects[i]);
        let key = box_key(&x, axis);
        let mut pos: usize = out.len();
        proof {
            lemma_sort_len(objects@.subrange(0, i as int), axis as int);
        }
        while pos > 0 && box_key(&out[pos - 1], axis).raw > key.raw
            invariant
                pos <= out@.len(),
                axis < 3,
                key.raw as int == box_key_spec(x, axis as int),
                forall|k: int|
                    0 <= k < out@.len() ==> (#[trigger] out@[k]).bounding_box_spec(
                        Fixed::zero(),
                        Fixed::zero(),
                    ) is Some,
                forall|j: int|
                    pos <= j < out@.len() ==> box_key_spec(out@[j], axis as int) > box_key_spec(
                        x,
                        axis as int,
                    ),
            decreases pos,
        {
            pos = pos - 1;
        }
        proof {
            lemma_insert_at(out@, x, axis as int, pos as int);
            let next = objects@.subrange(0, i + 1);
            assert(next.drop_last() =~= objects@.subrange(0, i as int));
            assert(next.last() == objects@[i as int]);
        }
        out.insert(pos, x);
        i = i + 1;
    }
    assert(objects@.subrange(0, objects@.len() as int) =~= objects@);
    out
}

/// Inserting is putting `x` at the place `pos` behind which every key is
/// greater and before which the key is not.
proof fn lemma_insert_at(sorted: Seq<Rc<Hittable>>, x: Rc<Hittable>, axis: int, pos: int)
    requires
        0 <= pos <= sorted.len(),
        forall|j: int| pos <= j < sorted.len() ==> box_key_spec(sorted[j], axis) > box_key_spec(x, axis),
        pos == 0 || box_key_spec(sorted[pos - 1], axis) <= box_key_spec(x, axis),
    ensures
        insert_spec(sorted, x, axis) == sorted.insert(pos, x),
    decreases sorted.len(),
{
    if sorted.len() == 0 {
        assert(seq![x] =~= sorted.insert(pos, x));
    } else if pos == sorted.len() {
        assert(sorted.push(x) =~= sorted.insert(pos, x));
    } else {
        let front = sorted.drop_last();
        assert(box_key_spec(sorted.last(), axis) > box_key_spec(x, axis));
        assert forall|j: int| pos <= j < front.len() implies box_key_spec(front[j], axis)
            > box_key_spec(x, axis) by {
            assert(front[j] == sorted[j]);
        }
        if pos > 0 {
            assert(front[pos - 1] == sorted[pos - 1]);
        }
        lemma_insert_at(front, x, axis, pos);
        assert(front.insert(pos, x).push(sorted.last()) =~= sorted.insert(pos, x));
    }
}

/// Inserting keeps the length, plus one.
pub proof fn lemma_insert_len(sorted: Seq<Rc<Hittable>>, x: Rc<Hittable>, axis: int)
    ensures
        insert_spec(sorted, x, axis).len() == sorted.len() + 1,
    decreases sorted.len(),
{
    if sorted.len() > 0 && box_key_spec(sorted.last(), axis) > box_key_spec(x, axis) {
        lemma_insert_len(sorted.drop_last(), x, axis);
    }
}

/// Sorting keeps the length.
pub proof fn lemma_sort_len(objects: Seq<Rc<Hittable>>, axis: int)
    ensures
        sort_spec(objects, axis).len() == objects.len(),
    decreases objects.len(),
{
    if objects.len() > 0 {
        lemma_sort_len(objects.drop_last(), axis);
        lemma_insert_len(sort_spec(objects.drop_last(), axis), objects.last(), axis);
    }
}

/// The keys along `axis` never fall from one object to the next.
pub open spec fn in_key_order(objects: Seq<Rc<Hittable>>, axis: int) -> bool {
    forall|i: int, j: int|
        0 <= i < j < objects.len() ==> box_key_spec(#[trigger] objects[i], axis) <= box_key_spec(
            #[trigger] objects[j],
            axis,
        )
}

/// No key of `objects` is above `bound`.
pub open spec fn keys_at_most(objects: Seq<Rc<Hittable>>, axis: int, bound: int) -> bool {
    forall|i: int| 0 <= i < objects.len() ==> box_key_spec(#[trigger] objects[i], axis) <= bound
}

/// Inserting brings in no key above a bound on the keys that were there
/// and on the new one.
proof fn lemma_insert_bounded(sorted: Seq<Rc<Hittable>>, x: Rc<Hittable>, axis: int, bound: int)
    requires
        keys_at_most(sorted, axis, bound),
        box_key_spec(x, axis) <= bound,
    ensures
        keys_at_most(insert_spec(sorted, x, axis), axis, bound),
    decreases sorted.len(),
{
    if sorted.len() > 0 && box_key_spec(sorted.last(), axis) > box_key_spec(x, axis) {
        let front = sorted.drop_last();
        assert forall|i: int| 0 <= i < front.len() implies box_key_spec(#[trigger] front[i], axis)
            <= bound by {
            assert(front[i] == sorted[i]);
        }
        lemma_insert_bounded(front, x, axis, bound);
        lemma_insert_len(front, x, axis);
        assert(box_key_spec(sorted[sorted.len() - 1], axis) <= bound);
    }
}

/// Inserting into objects in key order leaves them in key order.
pub proof fn lemma_insert_keeps_order(sorted: Seq<Rc<Hittable>>, x: Rc<Hittable>, axis: int)
    requires
        in_key_order(sorted, axis),
    ensures
        in_key_order(insert_spec(sorted, x, axis), axis),
    decreases sorted.len(),
{
    if sorted.len() == 0 {
    } else if box_key_spec(sorted.last(), axis) <= box_key_spec(x, axis) {
        let longer = sorted.push(x);
        assert forall|i: int, j: int| 0 <= i < j < longer.len() implies box_key_spec(
            #[trigger] longer[i],
            axis,
        ) <= box_key_spec(#[trigger] longer[j], axis) by {
            if j == sorted.len() {
                if i < sorted.len() - 1 {
                    assert(box_key_spec(sorted[i], axis) <= box_key_spec(sorted[sorted.len() - 1], axis));
                }
            } else {
                assert(box_key_spec(sorted[i], axis) <= box_key_spec(sorted[j], axis));
            }
        }
    } else {
        let front = sorted.drop_last();
        let last = sorted.last();
        let inner = insert_spec(front, x, axis);
        assert forall|i: int, j: int| 0 <= i < j < front.len() implies box_key_spec(
            #[trigger] front[i],
            axis,
        ) <= box_key_spec(#[trigger] front[j], axis) by {
            assert(box_key_spec(sorted[i], axis) <= box_key_spec(sorted[j], axis));
        }
        lemma_insert_keeps_order(front, x, axis);
        lemma_insert_len(front, x, axis);
        assert forall|i: int| 0 <= i < front.len() implies box_key_spec(#[trigger] front[i], axis)
            <= box_key_spec(last, axis) by {
            assert(box_key_spec(sorted[i], axis) <= box_key_spec(sorted[sorted.len() - 1], axis));
        }
        lemma_insert_bounded(front, x, axis, box_key_spec(last, axis));
        let longer = inner.push(last);
        assert forall|i: int, j: int| 0 <= i < j < longer.len() implies box_key_spec(
            #[trigger] longer[i],
            axis,
        ) <= box_key_spec(#[trigger] longer[j], axis) by {
            if j == inner.len() {
                assert(box_key_spec(inner[i], axis) <= box_key_spec(last, axis));
            } else {
                assert(box_key_spec(inner[i], axis) <= box_key_spec(inner[j], axis));
            }
        }
    }
}

/// The sorted objects are in key order.
pub proof fn lemma_sort_in_key_order(objects: Seq<Rc<Hittable>>, axis: int)
    ensures
        in_key_order(sort_spec(objects, axis), axis),
    decreases objects.len(),
{
    if objects.len() > 0 {
        lemma_sort_in_key_order(objects.drop_last(), axis);
        lemma_insert_keeps_order(sort_spec(objects.drop_last(), axis), objects.last(), axis);
    }
}

/// Inserting adds the one object and nothing else.
pub proof fn lemma_insert_adds_one(sorted: Seq<Rc<Hittable>>, x: Rc<Hittable>, axis: int)
    ensures
        insert_spec(sorted, x, axis).to_multiset() == sorted.to_multiset().insert(x),
    decreases sorted.len(),
{
    if sorted.len() == 0 {
        assert(seq![x] =~= sorted.push(x));
        vstd::seq_lib::to_multiset_build(sorted, x);
    } else if box_key_spec(sorted.last(), axis) <= box_key_spec(x, axis) {
        vstd::seq_lib::to_multiset_build(sorted, x);
    } else {
        let front = sorted.drop_last();
        let last = sorted.last();
        lemma_insert_adds_one(front, x, axis);
        vstd::seq_lib::to_multiset_build(insert_spec(front, x, axis), last);
        vstd::seq_lib::to_multiset_build(front, last);
        assert(front.push(last) =~= sorted);
        assert(front.to_multiset().insert(x).insert(last) =~= front.to_multiset().insert(last).insert(x));
    }
}

/// Sorting reorders: the sorted objects are the given ones, each as often
/// as it was given.
pub proof fn lemma_sort_permutes(objects: Seq<Rc<Hittable>>, axis: int)
    ensures
        sort_spec(objects, axis).to_multiset() == objects.to_multiset(),
    decreases objects.len(),
{
    if objects.len() > 0 {
        let front = objects.drop_last();
        lemma_sort_permutes(front, axis);
        lemma_insert_adds_one(sort_spec(front, axis), objects.last(), axis);
        vstd::seq_lib::to_multiset_build(front, objects.last());
        assert(front.push(objects.last()) =~= objects);
    } else {
        assert(objects =~= Seq::empty());
    }
}

/// What holds of every object that is inserted into holds of all
/// afterwards.
pub proof fn lemma_insert_keeps_all(
    sorted: Seq<Rc<Hittable>>,
    x: Rc<Hittable>,
    axis: int,
    holds: spec_fn(Rc<Hittable>) -> bool,
)
    requires
        forall|i: int| 0 <= i < sorted.len() ==> holds(#[trigger] sorted[i]),
        holds(x),
    ensures
        forall|i: int|
            0 <= i < insert_spec(sorted, x, axis).len() ==> holds(
                #[trigger] insert_spec(sorted, x, axis)[i],
            ),
    decreases sorted.len(),
{
    if sorted.len() > 0 && box_key_spec(sorted.last(), axis) > box_key_spec(x, axis) {
        let front = sorted.drop_last();
        assert forall|i: int| 0 <= i < front.len() implies holds(#[trigger] front[i]) by {
            assert(front[i] == sorted[i]);
        }
        lemma_insert_keeps_all(front, x, axis, holds);
        lemma_insert_len(front, x, axis);
        assert(holds(sorted[sorted.len() - 1]));
    }
}

/// What holds of every object holds of every sorted object.
pub proof fn lemma_sort_keeps_all(
    objects: Seq<Rc<Hittable>>,
    axis: int,
    holds: spec_fn(Rc<Hittable>) -> bool,
)
    requires
        forall|i: int| 0 <= i < objects.len() ==> holds(#[trigger] objects[i]),
    ensures
        forall|i: int|
            0 <= i < sort_spec(objects, axis).len() ==> holds(#[trigger] sort_spec(objects, axis)[i]),
    decreases objects.len(),
{
    if objects.len() > 0 {
        let front = objects.drop_last();
        assert forall|i: int| 0 <= i < front.len() implies holds(#[trigger] front[i]) by {
            assert(front[i] == objects[i]);
        }
        lemma_sort_keeps_all(front, axis, holds);
        assert(holds(objects[objects.len() - 1]));
        lemma_insert_keeps_all(sort_spec(front, axis), objects.last(), axis, holds);
    }
}

/// What holds of every sorted object holds of every object.
pub proof fn lemma_sort_loses_none(
    objects: Seq<Rc<Hittable>>,
    axis: int,
    holds: spec_fn(Rc<Hittable>) -> bool,
)
    requires
        forall|i: int|
            0 <= i < sort_spec(objects, axis).len() ==> holds(#[trigger] sort_spec(objects, axis)[i]),
    ensures
        forall|i: int| 0 <= i < objects.len() ==> holds(#[trigger] objects[i]),
{
    let sorted = sort_spec(objects, axis);
    lemma_sort_permutes(objects, axis);
    assert forall|i: int| 0 <= i < objects.len() implies holds(#[trigger] objects[i]) by {
        objects.to_multiset_ensures();
        sorted.to_multiset_ensures();
        assert(objects.contains(objects[i]));
        assert(objects.to_multiset().count(objects[i]) > 0);
        assert(sorted.to_multiset().count(objects[i]) > 0);
        assert(sorted.contains(objects[i]));
        let k = choose|k: int| 0 <= k < sorted.len() && sorted[k] == objects[i];
        assert(holds(sorted[k]));
    }
}

} // verus!
