//! Axis-aligned bounding boxes.

use vstd::prelude::*;
use std::cmp::Ordering;
use std::rc::Rc;
use crate::fixed::lemma_mul_by_zero;
use crate::fixed::lemma_toward_zero_accuracy;
use crate::fixed::saturate;
use crate::fixed::toward_zero;
use crate::fixed::Fixed;
use crate::fixed::LEAST_RAW;
use crate::fixed::SCALE;
use crate::hittable::sorting::box_key;
use crate::hittable::sorting::box_key_spec;
use crate::hittable::Hittable;
use crate::ray::Ray;
use crate::vec3::Vec3;

verus! {

/// The box between two corners. A box made from a valid shape has
/// `min <= max` on every axis.
#[derive(Clone, Copy, PartialEq, Eq, Structural, Debug)]
pub struct Aabb {
    pub min: Vec3,
    pub max: Vec3,
}

/// The quotient of `n` by a positive `d`, rounded down.
pub open spec fn floor_div_spec(n: int, d: int) -> int
    recommends
        d > 0,
{
    n / d
}

/// The quotient of `n` by a positive `d`, rounded up.
pub open spec fn ceil_div_spec(n: int, d: int) -> int
    recommends
        d > 0,
{
    -((-n) / d)
}

/// A parameter above a quotient is above the quotient rounded down, and
/// one below a quotient is below the quotient rounded up.
pub proof fn lemma_rounded_bounds(n: int, d: int, t: int)
    requires
        d > 0,
    ensures
        d * t > n ==> floor_div_spec(n, d) < t,
        d * t < n ==> t < ceil_div_spec(n, d),
{
    if d * t > n {
        let q = n / d;
        vstd::arithmetic::div_mod::lemma_fundamental_div_mod(n, d);
        vstd::arithmetic::div_mod::lemma_mod_bound(n, d);
        assert(q < t) by (nonlinear_arith)
            requires
                d > 0,
                d * t > n,
                n == d * q + (n % d),
                0 <= n % d,
        ;
    }
    if d * t < n {
        let q = (-n) / d;
        vstd::arithmetic::div_mod::lemma_fundamental_div_mod(-n, d);
        vstd::arithmetic::div_mod::lemma_mod_bound(-n, d);
        assert(q < -t) by (nonlinear_arith)
            requires
                d > 0,
                d * t < n,
                -n == d * q + ((-n) % d),
                0 <= (-n) % d,
        ;
    }
}

/// What the product of direction and parameter, in millionths of a
/// millionth, must exceed for the ray to have reached the plane at `lo`:
/// one raw unit below the plane, since the product is rounded toward zero.
/// `None` where the plane lies at or beyond the least value, so that the
/// ray is always past it.
pub open spec fn reach_spec(lo: Fixed, origin: Fixed) -> Option<int> {
    let gap = lo.raw - origin.raw;
    if lo.raw > LEAST_RAW && gap > LEAST_RAW {
        Some(SCALE * (gap - 1))
    } else {
        None
    }
}

/// What the product of direction and parameter must stay below for the
/// ray not to have passed the plane at `hi`: one raw unit above the plane.
/// `None` where the plane lies at or beyond the greatest value.
pub open spec fn limit_spec(hi: Fixed, origin: Fixed) -> Option<int> {
    let gap = hi.raw - origin.raw;
    if hi.raw < i64::MAX && gap < i64::MAX {
        Some(SCALE * (gap + 1))
    } else {
        None
    }
}

/// The size of a direction that is not zero.
pub open spec fn speed_spec(dir: Fixed) -> int {
    if dir.raw < 0 {
        -(dir.raw as int)
    } else {
        dir.raw as int
    }
}

/// A parameter below every parameter at which the ray, on one axis, is
/// between the planes at `lo` and `hi`: the quotient of the nearer plane's
/// bound by the speed, rounded down. Minus infinity, the least raw value
/// of all, where that plane sets no bound.
pub open spec fn slab_enter_spec(lo: Fixed, hi: Fixed, origin: Fixed, dir: Fixed) -> Fixed
    recommends
        dir.raw != 0,
{
    let bound = if dir.raw > 0 {
        reach_spec(lo, origin)
    } else {
        match limit_spec(hi, origin) {
            Some(b) => Some(-b),
            None => None,
        }
    };
    match bound {
        Some(n) => {
            let q = floor_div_spec(n, speed_spec(dir));
            if q < LEAST_RAW {
                Fixed { raw: i64::MIN }
            } else if q > i64::MAX {
                Fixed { raw: i64::MAX }
            } else {
                Fixed { raw: q as i64 }
            }
        },
        None => Fixed { raw: i64::MIN },
    }
}

/// A parameter at or above every parameter at which the ray, on one axis,
/// is between the planes: the quotient of the farther plane's bound by
/// the speed, rounded up. Plus infinity where that plane sets no bound.
pub open spec fn slab_leave_spec(lo: Fixed, hi: Fixed, origin: Fixed, dir: Fixed) -> Fixed
    recommends
        dir.raw != 0,
{
    let bound = if dir.raw > 0 {
        limit_spec(hi, origin)
    } else {
        match reach_spec(lo, origin) {
            Some(a) => Some(-a),
            None => None,
        }
    };
    match bound {
        Some(n) => Fixed { raw: saturate(ceil_div_spec(n, speed_spec(dir))) as i64 },
        None => Fixed { raw: i64::MAX },
    }
}

/// One axis of the slab method. The slab between `lo` and `hi` cuts the
/// interval from `t_min` to `t_max` of the ray's parameter down to a part
/// outside of which the ray, at `origin` with direction `dir` on this
/// axis, is not between the two planes; `None` when nothing is left.
///
/// The bounds are rounded outward, the entry down and the exit up, so
/// that no parameter at which the ray is between the planes is cut off.
/// A ray that runs along the planes (`dir` zero) is between them at every
/// parameter or at none: this stands for the quotients by zero, which are
/// infinite.
pub open spec fn slab_spec(
    lo: Fixed,
    hi: Fixed,
    origin: Fixed,
    dir: Fixed,
    t_min: Fixed,
    t_max: Fixed,
) -> Option<(Fixed, Fixed)> {
    if dir.raw == 0 {
        let spot = origin.add(Fixed::zero());
        if spot.raw < lo.raw || spot.raw > hi.raw || t_max.raw <= t_min.raw {
            None
        } else {
            Some((t_min, t_max))
        }
    } else {
        let enter = slab_enter_spec(lo, hi, origin, dir).max(t_min);
        let leave = slab_leave_spec(lo, hi, origin, dir).min(t_max);
        if leave.raw <= enter.raw {
            None
        } else {
            Some((enter, leave))
        }
    }
}

/// The slab method cuts off no parameter at which the ray is between the
/// planes: such a parameter lies above the entry and not above the exit.
pub proof fn lemma_slab_keeps(lo: Fixed, hi: Fixed, origin: Fixed, dir: Fixed, t: Fixed)
    requires
        dir.raw != 0,
        t.raw > i64::MIN,
        lo.raw <= origin.add_spec(dir.mul_spec(t)).raw <= hi.raw,
    ensures
        slab_enter_spec(lo, hi, origin, dir).raw < t.raw <= slab_leave_spec(lo, hi, origin, dir).raw,
        t.raw < slab_leave_spec(lo, hi, origin, dir).raw || slab_leave_spec(lo, hi, origin, dir).raw
            == i64::MAX,
{
    reveal(Fixed::mul_spec);
    let x = dir.raw as int * t.raw as int;
    let speed = speed_spec(dir);
    let scale = SCALE as int;
    lemma_toward_zero_accuracy(x, scale);
    let step = toward_zero(x, scale);
    // What the two planes say of the product.
    if reach_spec(lo, origin) is Some {
        let gap = lo.raw - origin.raw;
        assert(step >= gap);
        assert(x > scale * (gap - 1)) by (nonlinear_arith)
            requires
                step >= gap,
                x >= 0 ==> step * scale <= x,
                x <= 0 ==> step * scale - scale < x,
                scale > 0,
        ;
    }
    if limit_spec(hi, origin) is Some {
        let gap = hi.raw - origin.raw;
        assert(step <= gap);
        assert(x < scale * (gap + 1)) by (nonlinear_arith)
            requires
                step <= gap,
                x >= 0 ==> x < step * scale + scale,
                x <= 0 ==> x <= step * scale,
                scale > 0,
        ;
    }
    // The product in terms of the speed.
    if dir.raw > 0 {
        assert(speed * t.raw == x);
    } else {
        assert(speed * t.raw == -x) by (nonlinear_arith)
            requires
                speed == -(dir.raw as int),
                x == dir.raw as int * t.raw as int,
        ;
    }
    match reach_spec(lo, origin) {
        Some(a) => {
            lemma_rounded_bounds(a, speed, t.raw as int);
            lemma_rounded_bounds(-a, speed, t.raw as int);
        },
        None => {},
    }
    match limit_spec(hi, origin) {
        Some(b) => {
            lemma_rounded_bounds(b, speed, t.raw as int);
            lemma_rounded_bounds(-b, speed, t.raw as int);
        },
        None => {},
    }
}

/// The quotient of `n` by a positive `d`, rounded down.
fn floor_div(n: i128, d: i128) -> (r: i128)
    requires
        0 < d <= 0x1_0000_0000_0000_0000,
        -0x1000_0000_0000_0000_0000_0000_0000 <= n <= 0x1000_0000_0000_0000_0000_0000_0000,
    ensures
        r as int == floor_div_spec(n as int, d as int),
        -0x2000_0000_0000_0000_0000_0000_0000 <= r <= 0x2000_0000_0000_0000_0000_0000_0000,
{
    if n >= 0 {
        assert(0 <= (n as int) / (d as int) <= n as int) by (nonlinear_arith)
            requires
                0 <= n,
                d > 0,
        ;
        n / d
    } else {
        let up: i128 = -n + (d - 1);
        let q: i128 = up / d;
        proof {
            let x = up as int;
            let dd = d as int;
            vstd::arithmetic::div_mod::lemma_fundamental_div_mod(x, dd);
            vstd::arithmetic::div_mod::lemma_mod_bound(x, dd);
            assert(0 <= x / dd <= x) by (nonlinear_arith)
                requires
                    0 <= x,
                    dd > 0,
            ;
            let rest = dd - 1 - x % dd;
            assert(n as int == (-(x / dd)) * dd + rest) by (nonlinear_arith)
                requires
                    x == dd * (x / dd) + x % dd,
                    x == -(n as int) + dd - 1,
                    rest == dd - 1 - x % dd,
            ;
            vstd::arithmetic::div_mod::lemma_fundamental_div_mod_converse(n as int, dd, -(x / dd), rest);
        }
        -q
    }
}

/// The quotient of `n` by a positive `d`, rounded up.
fn ceil_div(n: i128, d: i128) -> (r: i128)
    requires
        0 < d <= 0x1_0000_0000_0000_0000,
        -0x1000_0000_0000_0000_0000_0000_0000 <= n <= 0x1000_0000_0000_0000_0000_0000_0000,
    ensures
        r as int == ceil_div_spec(n as int, d as int),
{
    -floor_div(-n, d)
}

/// The bound that the plane at `lo` sets on the product.
fn reach(lo: Fixed, origin: Fixed) -> (r: Option<i128>)
    ensures
        r is Some <==> reach_spec(lo, origin) is Some,
        r matches Some(a) ==> reach_spec(lo, origin) == Some(a as int) && -0x800_0000_0000_0000_0000_0000
            <= a <= 0x800_0000_0000_0000_0000_0000,
{
    let gap: i128 = lo.raw as i128 - origin.raw as i128;
    if lo.raw > LEAST_RAW && gap > LEAST_RAW as i128 {
        Some(1_000_000 * (gap - 1))
    } else {
        None
    }
}

/// The bound that the plane at `hi` sets on the product.
fn limit(hi: Fixed, origin: Fixed) -> (r: Option<i128>)
    ensures
        r is Some <==> limit_spec(hi, origin) is Some,
        r matches Some(b) ==> limit_spec(hi, origin) == Some(b as int) && -0x800_0000_0000_0000_0000_0000
            <= b <= 0x800_0000_0000_0000_0000_0000,
{
    let gap: i128 = hi.raw as i128 - origin.raw as i128;
    if hi.raw < i64::MAX && gap < i64::MAX as i128 {
        Some(1_000_000 * (gap + 1))
    } else {
        None
    }
}

/// The entry and the exit of one axis, for a direction that is not zero.
fn slab_bounds(lo: Fixed, hi: Fixed, origin: Fixed, dir: Fixed) -> (r: (Fixed, Fixed))
    requires
        dir.raw != 0,
    ensures
        r.0 == slab_enter_spec(lo, hi, origin, dir),
        r.1 == slab_leave_spec(lo, hi, origin, dir),
{
    let speed: i128 = if dir.raw < 0 {
        -(dir.raw as i128)
    } else {
        dir.raw as i128
    };
    let below = reach(lo, origin);
    let above = limit(hi, origin);
    let (first, last): (Option<i128>, Option<i128>) = if dir.raw > 0 {
        (below, above)
    } else {
        (
            match above {
                Some(b) => Some(-b),
                None => None,
            },
            match below {
                Some(a) => Some(-a),
                None => None,
            },
        )
    };
    let enter = match first {
        Some(n) => {
            let q = floor_div(n, speed);
            if q < LEAST_RAW as i128 {
                Fixed { raw: i64::MIN }
            } else if q > i64::MAX as i128 {
                Fixed { raw: i64::MAX }
            } else {
                Fixed { raw: q as i64 }
            }
        },
        None => Fixed { raw: i64::MIN },
    };
    let leave = match last {
        Some(n) => {
            let q = ceil_div(n, speed);
            if q < LEAST_RAW as i128 {
                Fixed { raw: LEAST_RAW }
            } else if q > i64::MAX as i128 {
                Fixed { raw: i64::MAX }
            } else {
                Fixed { raw: q as i64 }
            }
        },
        None => Fixed { raw: i64::MAX },
    };
    (enter, leave)
}

/// One axis of the slab method.
fn slab(lo: Fixed, hi: Fixed, origin: Fixed, dir: Fixed, t_min: Fixed, t_max: Fixed) -> (r: Option<
    (Fixed, Fixed),
>)
    ensures
        r == slab_spec(lo, hi, origin, dir, t_min, t_max),
{
    if dir.raw == 0 {
        let spot = origin.add(Fixed::zero());
        if spot.raw < lo.raw || spot.raw > hi.raw || t_max.raw <= t_min.raw {
            None
        } else {
            Some((t_min, t_max))
        }
    } else {
        let (first, last) = slab_bounds(lo, hi, origin, dir);
        let enter = first.max(t_min);
        let leave = last.min(t_max);
        if leave.raw <= enter.raw {
            None
        } else {
            Some((enter, leave))
        }
    }
}

impl Aabb {
    /// The box between two corners.
    pub open spec fn new_spec(min: Vec3, max: Vec3) -> Aabb {
        Aabb { min, max }
    }

    /// `min <= max` on every axis.
    pub open spec fn well_formed(&self) -> bool {
        &&& self.min.0.raw <= self.max.0.raw
        &&& self.min.1.raw <= self.max.1.raw
        &&& self.min.2.raw <= self.max.2.raw
    }

    /// The point `p` lies in the box, its faces included.
    pub open spec fn holds_spec(&self, p: Vec3) -> bool {
        &&& self.min.0.raw <= p.0.raw <= self.max.0.raw
        &&& self.min.1.raw <= p.1.raw <= self.max.1.raw
        &&& self.min.2.raw <= p.2.raw <= self.max.2.raw
    }

    /// Every point of `inner` is a point of `self`.
    pub open spec fn contains(&self, inner: Aabb) -> bool {
        &&& self.min.0.raw <= inner.min.0.raw
        &&& self.min.1.raw <= inner.min.1.raw
        &&& self.min.2.raw <= inner.min.2.raw
        &&& inner.max.0.raw <= self.max.0.raw
        &&& inner.max.1.raw <= self.max.1.raw
        &&& inner.max.2.raw <= self.max.2.raw
    }

    /// The smallest box that holds both: the lesser of the two minima and
    /// the greater of the two maxima, axis by axis.
    pub open spec fn surrounding_box_spec(box0: Aabb, box1: Aabb) -> Aabb {
        Aabb {
            min: Vec3(
                box0.min.0.min(box1.min.0),
                box0.min.1.min(box1.min.1),
                box0.min.2.min(box1.min.2),
            ),
            max: Vec3(
                box0.max.0.max(box1.max.0),
                box0.max.1.max(box1.max.1),
                box0.max.2.max(box1.max.2),
            ),
        }
    }

    /// A part of the interval from `t_min` to `t_max` outside of which the
    /// ray is not in the box: the interval cut down by the slab of each
    /// axis in turn.
    pub open spec fn clip_spec(&self, ray: Ray, t_min: Fixed, t_max: Fixed) -> Option<(Fixed, Fixed)> {
        match slab_spec(self.min.0, self.max.0, ray.origin.0, ray.dir.0, t_min, t_max) {
            None => None,
            Some((a, b)) => match slab_spec(self.min.1, self.max.1, ray.origin.1, ray.dir.1, a, b) {
                None => None,
                Some((c, d)) => slab_spec(self.min.2, self.max.2, ray.origin.2, ray.dir.2, c, d),
            },
        }
    }

    /// The ray is inside the box somewhere in `(t_min, t_max)`.
    pub open spec fn hit_spec(&self, ray: Ray, t_min: Fixed, t_max: Fixed) -> bool {
        self.clip_spec(ray, t_min, t_max) is Some
    }

    /// The box between two corners.
    #[verifier::when_used_as_spec(new_spec)]
    pub fn new(min: Vec3, max: Vec3) -> (r: Aabb)
        ensures
            r == Aabb::new_spec(min, max),
    {
        Aabb { min, max }
    }

    /// The smallest box that holds both boxes.
    #[verifier::when_used_as_spec(surrounding_box_spec)]
    pub fn surrounding_box(box0: Aabb, box1: Aabb) -> (r: Aabb)
        ensures
            r == Aabb::surrounding_box_spec(box0, box1),
            r == Aabb::surrounding_box_spec(box1, box0),
            r.contains(box0),
            r.contains(box1),
    {
        let min = Vec3::new(
            box0.min().x().min(box1.min().x()),
            box0.min().y().min(box1.min().y()),
            box0.min().z().min(box1.min().z()),
        );
        let max = Vec3::new(
            box0.max().x().max(box1.max().x()),
            box0.max().y().max(box1.max().y()),
            box0.max().z().max(box1.max().z()),
        );
        Aabb { min, max }
    }

    /// The corner of least coordinates.
    pub fn min(&self) -> (r: Vec3)
        ensures
            r == self.min,
    {
        self.min
    }

    /// The corner of greatest coordinates.
    pub fn max(&self) -> (r: Vec3)
        ensures
            r == self.max,
    {
        self.max
    }

    /// Whether the point `p` lies in the box, its faces included.
    #[verifier::when_used_as_spec(holds_spec)]
    pub fn holds(&self, p: Vec3) -> (r: bool)
        ensures
            r == self.holds_spec(p),
    {
        self.min.0.raw <= p.0.raw && p.0.raw <= self.max.0.raw && self.min.1.raw <= p.1.raw && p.1.raw
            <= self.max.1.raw && self.min.2.raw <= p.2.raw && p.2.raw <= self.max.2.raw
    }

    /// Bounds on where the ray is inside the box between `t_min` and
    /// `t_max`: it is inside at no parameter at or before the first, and
    /// at none after the second. `None` where it is inside at none at all.
    pub fn clip(&self, ray: &Ray, t_min: Fixed, t_max: Fixed) -> (r: Option<(Fixed, Fixed)>)
        ensures
            r == self.clip_spec(*ray, t_min, t_max),
            r matches Some((enter, leave)) ==> t_min.raw <= enter.raw && enter.raw < leave.raw
                && leave.raw <= t_max.raw,
    {
        match slab(self.min.0, self.max.0, ray.origin.0, ray.dir.0, t_min, t_max) {
            None => None,
            Some((a, b)) => match slab(self.min.1, self.max.1, ray.origin.1, ray.dir.1, a, b) {
                None => None,
                Some((c, d)) => slab(self.min.2, self.max.2, ray.origin.2, ray.dir.2, c, d),
            },
        }
    }

    /// Whether the ray may pass through the box between `t_min` and
    /// `t_max`. Where `t_min` is below `t_max`, the answer is never no
    /// while the ray is in the box at some parameter from `t_min` to
    /// `t_max`.
    pub fn hit(&self, ray: &Ray, t_min: Fixed, t_max: Fixed) -> (r: bool)
        ensures
            r == self.hit_spec(*ray, t_min, t_max),
            forall|t: Fixed|
                t_min.raw < t_max.raw && t_min.raw <= t.raw <= t_max.raw && t.raw > i64::MIN
                    && self.holds_spec(#[trigger] ray.at_spec(t)) ==> r,
    {
        proof {
            assert forall|t: Fixed|
                t_min.raw < t_max.raw && t_min.raw <= t.raw <= t_max.raw && t.raw > i64::MIN
                    && self.holds_spec(#[trigger] ray.at_spec(t)) implies self.hit_spec(
                    *ray,
                    t_min,
                    t_max,
                ) by {
                lemma_box_is_met(*self, *ray, t_min, t_max, t);
            }
        }
        self.clip(ray, t_min, t_max).is_some()
    }
}

/// One axis of the slab method keeps a parameter of the interval at which
/// the ray is between the planes.
proof fn lemma_slab_step(
    lo: Fixed,
    hi: Fixed,
    origin: Fixed,
    dir: Fixed,
    t_min: Fixed,
    t_max: Fixed,
    t: Fixed,
)
    requires
        t_min.raw <= t.raw <= t_max.raw,
        t_min.raw < t_max.raw,
        t.raw > i64::MIN,
        lo.raw <= origin.add_spec(dir.mul_spec(t)).raw <= hi.raw,
    ensures
        slab_spec(lo, hi, origin, dir, t_min, t_max) matches Some((enter, leave)) && enter.raw <= t.raw
            <= leave.raw && enter.raw < leave.raw,
{
    if dir.raw == 0 {
        lemma_mul_by_zero(t);
        assert(dir == Fixed::zero_spec());
    } else {
        lemma_slab_keeps(lo, hi, origin, dir, t);
    }
}

/// A box is never missed while the ray passes through it in range: if the
/// ray is in the box at some parameter from `t_min` to `t_max`, and
/// `t_min` is below `t_max`, the box test says yes, and the bounds that
/// it gives enclose that parameter.
pub proof fn lemma_box_is_met(b: Aabb, ray: Ray, t_min: Fixed, t_max: Fixed, t: Fixed)
    requires
        t_min.raw <= t.raw <= t_max.raw,
        t_min.raw < t_max.raw,
        t.raw > i64::MIN,
        b.holds_spec(ray.at_spec(t)),
    ensures
        b.hit_spec(ray, t_min, t_max),
        b.clip_spec(ray, t_min, t_max) matches Some((enter, leave)) && enter.raw <= t.raw <= leave.raw,
{
    lemma_slab_step(b.min.0, b.max.0, ray.origin.0, ray.dir.0, t_min, t_max, t);
    let first = slab_spec(b.min.0, b.max.0, ray.origin.0, ray.dir.0, t_min, t_max)->Some_0;
    lemma_slab_step(b.min.1, b.max.1, ray.origin.1, ray.dir.1, first.0, first.1, t);
    let second = slab_spec(b.min.1, b.max.1, ray.origin.1, ray.dir.1, first.0, first.1)->Some_0;
    lemma_slab_step(b.min.2, b.max.2, ray.origin.2, ray.dir.2, second.0, second.1, t);
}

/// What lies in a box lies in every box that holds it.
pub proof fn lemma_holds_in_outer(outer: Aabb, inner: Aabb, p: Vec3)
    requires
        outer.contains(inner),
        inner.holds_spec(p),
    ensures
        outer.holds_spec(p),
{
}

impl Default for Aabb {
    /// The box that is the origin alone.
    fn default() -> (r: Aabb)
        ensures
            r == Aabb::new_spec(Vec3::zero_spec(), Vec3::zero_spec()),
    {
        Aabb::new(Vec3::zero(), Vec3::zero())
    }
}

/// Merging two boxes does not depend on their order, and the merged box
/// holds each of the two.
pub proof fn lemma_surrounding_box_commutes_and_contains(a: Aabb, b: Aabb)
    ensures
        Aabb::surrounding_box_spec(a, b) == Aabb::surrounding_box_spec(b, a),
        Aabb::surrounding_box_spec(a, b).contains(a),
        Aabb::surrounding_box_spec(a, b).contains(b),
{
}

/// The merged box is the least: a box that holds both holds the merged box.
pub proof fn lemma_surrounding_box_least(a: Aabb, b: Aabb, outer: Aabb)
    requires
        outer.contains(a),
        outer.contains(b),
    ensures
        outer.contains(Aabb::surrounding_box_spec(a, b)),
{
}

/// Merging two well-formed boxes gives a well-formed box.
pub proof fn lemma_surrounding_box_well_formed(a: Aabb, b: Aabb)
    requires
        a.well_formed(),
        b.well_formed(),
    ensures
        Aabb::surrounding_box_spec(a, b).well_formed(),
{
}

/// A ray that misses a box within an interval misses it within every part
/// of the interval.
pub proof fn lemma_clip_narrowing(b: Aabb, ray: Ray, t_min: Fixed, t_max: Fixed, s_min: Fixed, s_max: Fixed)
    requires
        t_min.raw <= s_min.raw,
        s_max.raw <= t_max.raw,
        !b.hit_spec(ray, t_min, t_max),
    ensures
        !b.hit_spec(ray, s_min, s_max),
{
}

/// The order of two keys.
fn order_of(a: Fixed, b: Fixed) -> (r: Ordering)
    ensures
        match r {
            Ordering::Less => a.raw < b.raw,
            Ordering::Equal => a.raw == b.raw,
            Ordering::Greater => a.raw > b.raw,
        },
{
    if a.raw < b.raw {
        Ordering::Less
    } else if a.raw > b.raw {
        Ordering::Greater
    } else {
        Ordering::Equal
    }
}

/// The order of two objects along the x axis: that of the least x
/// coordinates of their boxes.
pub fn box_x_compare(a: &Rc<Hittable>, b: &Rc<Hittable>) -> (r: Ordering)
    requires
        a.bounding_box_spec(Fixed::zero(), Fixed::zero()) is Some,
        b.bounding_box_spec(Fixed::zero(), Fixed::zero()) is Some,
    ensures
        match r {
            Ordering::Less => box_key_spec(*a, 0) < box_key_spec(*b, 0),
            Ordering::Equal => box_key_spec(*a, 0) == box_key_spec(*b, 0),
            Ordering::Greater => box_key_spec(*a, 0) > box_key_spec(*b, 0),
        },
{
    order_of(box_key(a, 0), box_key(b, 0))
}

/// The order of two objects along the y axis.
pub fn box_y_compare(a: &Rc<Hittable>, b: &Rc<Hittable>) -> (r: Ordering)
    requires
        a.bounding_box_spec(Fixed::zero(), Fixed::zero()) is Some,
        b.bounding_box_spec(Fixed::zero(), Fixed::zero()) is Some,
    ensures
        match r {
            Ordering::Less => box_key_spec(*a, 1) < box_key_spec(*b, 1),
            Ordering::Equal => box_key_spec(*a, 1) == box_key_spec(*b, 1),
            Ordering::Greater => box_key_spec(*a, 1) > box_key_spec(*b, 1),
        },
{
    order_of(box_key(a, 1), box_key(b, 1))
}

/// The order of two objects along the z axis.
pub fn box_z_compare(a: &Rc<Hittable>, b: &Rc<Hittable>) -> (r: Ordering)
    requires
        a.bounding_box_spec(Fixed::zero(), Fixed::zero()) is Some,
        b.bounding_box_spec(Fixed::zero(), Fixed::zero()) is Some,
    ensures
        match r {
            Ordering::Less => box_key_spec(*a, 2) < box_key_spec(*b, 2),
            Ordering::Equal => box_key_spec(*a, 2) == box_key_spec(*b, 2),
            Ordering::Greater => box_key_spec(*a, 2) > box_key_spec(*b, 2),
        },
{
    order_of(box_key(a, 2), box_key(b, 2))
}

} // verus!
