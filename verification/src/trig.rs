//! Angles and the circular functions on fixed-point numbers.
//!
//! The functions are polynomial approximations, exact to a few millionths.
//! Each contract gives the approximation itself, so a caller knows the
//! result to the last digit.

use vstd::prelude::*;
use crate::fixed::lemma_div_is_fraction;
use crate::fixed::lemma_mul_by_fraction;
use crate::fixed::lemma_sqrt_not_negative;
use crate::fixed::Fixed;
use crate::fixed::SCALE;

verus! {

/// Pi to six places.
pub const PI_RAW: i64 = 3_141_593;

/// A quarter turn.
pub const HALF_PI_RAW: i64 = 1_570_796;

/// A full turn.
pub const TWO_PI_RAW: i64 = 6_283_185;

/// Pi.
pub open spec fn pi_spec() -> Fixed {
    Fixed { raw: PI_RAW }
}

/// Pi.
#[verifier::when_used_as_spec(pi_spec)]
pub fn pi() -> (r: Fixed)
    ensures
        r == pi_spec(),
{
    Fixed { raw: PI_RAW }
}

/// The angle in `(-pi, pi]` that differs from `x` by whole turns.
pub open spec fn wrap_angle_spec(x: Fixed) -> Fixed {
    let r = x.raw as int % TWO_PI_RAW as int;
    if r > PI_RAW as int {
        Fixed { raw: (r - TWO_PI_RAW) as i64 }
    } else {
        Fixed { raw: r as i64 }
    }
}

/// The angle in `(-pi, pi]` that differs from `x` by whole turns.
#[verifier::when_used_as_spec(wrap_angle_spec)]
pub fn wrap_angle(x: Fixed) -> (r: Fixed)
    ensures
        r == wrap_angle_spec(x),
        -PI_RAW < r.raw <= PI_RAW,
{
    let rem: i64 = if x.raw >= 0 {
        x.raw % TWO_PI_RAW
    } else {
        let m: i64 = -(x.raw + 1);
        TWO_PI_RAW - 1 - (m % TWO_PI_RAW)
    };
    if rem > PI_RAW {
        Fixed { raw: rem - TWO_PI_RAW }
    } else {
        Fixed { raw: rem }
    }
}

/// The angle in `[-pi/2, pi/2]` with the same sine as the wrapped angle `a`.
pub open spec fn fold_angle_spec(a: Fixed) -> Fixed {
    if a.raw > HALF_PI_RAW {
        Fixed { raw: PI_RAW }.sub(a)
    } else if a.raw < -HALF_PI_RAW {
        a.add(Fixed { raw: PI_RAW }).neg()
    } else {
        a
    }
}

/// The sine series on `[-pi/2, pi/2]`, through its term of degree eleven,
/// in nested form:
/// `r (1 - r²/6 (1 - r²/20 (1 - r²/42 (1 - r²/72 (1 - r²/110)))))`.
pub open spec fn sin_series_spec(r: Fixed) -> Fixed {
    let x2 = r.mul(r);
    let a = Fixed::one().sub(x2.mul(Fixed { raw: 9_091 }));
    let b = Fixed::one().sub(x2.mul(Fixed { raw: 13_889 }).mul(a));
    let c = Fixed::one().sub(x2.mul(Fixed { raw: 23_810 }).mul(b));
    let d = Fixed::one().sub(x2.mul(Fixed { raw: 50_000 }).mul(c));
    let e = Fixed::one().sub(x2.mul(Fixed { raw: 166_667 }).mul(d));
    r.mul(e)
}

/// The sine: the series at the angle, wrapped into one turn and folded
/// into its middle half.
pub open spec fn sin_spec(x: Fixed) -> Fixed {
    sin_series_spec(fold_angle_spec(wrap_angle_spec(x)))
}

/// The cosine: the sine a quarter turn on.
pub open spec fn cos_spec(x: Fixed) -> Fixed {
    sin_spec(x.add(Fixed { raw: HALF_PI_RAW }))
}

/// The tangent: sine over cosine.
pub open spec fn tan_spec(x: Fixed) -> Fixed {
    sin_spec(x).div(cos_spec(x))
}

/// The sine of `x` radians.
#[verifier::when_used_as_spec(sin_spec)]
pub fn sin(x: Fixed) -> (r: Fixed)
    ensures
        r == sin_spec(x),
{
    let a = wrap_angle(x);
    let r = if a.raw > HALF_PI_RAW {
        Fixed { raw: PI_RAW }.sub(a)
    } else if a.raw < -HALF_PI_RAW {
        a.add(Fixed { raw: PI_RAW }).neg()
    } else {
        a
    };
    let x2 = r.mul(r);
    let a = Fixed::one().sub(x2.mul(Fixed { raw: 9_091 }));
    let b = Fixed::one().sub(x2.mul(Fixed { raw: 13_889 }).mul(a));
    let c = Fixed::one().sub(x2.mul(Fixed { raw: 23_810 }).mul(b));
    let d = Fixed::one().sub(x2.mul(Fixed { raw: 50_000 }).mul(c));
    let e = Fixed::one().sub(x2.mul(Fixed { raw: 166_667 }).mul(d));
    r.mul(e)
}

/// The cosine of `x` radians: the sine a quarter turn on.
#[verifier::when_used_as_spec(cos_spec)]
pub fn cos(x: Fixed) -> (r: Fixed)
    ensures
        r == cos_spec(x),
{
    sin(x.add(Fixed { raw: HALF_PI_RAW }))
}

/// The tangent of `x` radians: sine over cosine, an end of the range where
/// the cosine is zero.
#[verifier::when_used_as_spec(tan_spec)]
pub fn tan(x: Fixed) -> (r: Fixed)
    ensures
        r == tan_spec(x),
{
    sin(x).div(cos(x))
}

/// The arctangent of a slope `z` in `[0, 1]`, as an odd polynomial of
/// degree seventeen.
pub open spec fn atan_unit_spec(z: Fixed) -> Fixed {
    let z2 = z.mul(z);
    let a = Fixed { raw: 2_866 }.mul(z2).sub(Fixed { raw: 16_166 });
    let b = a.mul(z2).add(Fixed { raw: 42_910 });
    let c = b.mul(z2).sub(Fixed { raw: 75_290 });
    let d = c.mul(z2).add(Fixed { raw: 106_563 });
    let e = d.mul(z2).sub(Fixed { raw: 142_089 });
    let f = e.mul(z2).add(Fixed { raw: 199_936 });
    let g = f.mul(z2).sub(Fixed { raw: 333_331 });
    let h = g.mul(z2).add(Fixed { raw: 1_000_000 });
    z.mul(h)
}

/// The arctangent of a slope in `[0, 1]`.
fn atan_unit(z: Fixed) -> (r: Fixed)
    ensures
        r == atan_unit_spec(z),
{
    let z2 = z.mul(z);
    let a = Fixed { raw: 2_866 }.mul(z2).sub(Fixed { raw: 16_166 });
    let b = a.mul(z2).add(Fixed { raw: 42_910 });
    let c = b.mul(z2).sub(Fixed { raw: 75_290 });
    let d = c.mul(z2).add(Fixed { raw: 106_563 });
    let e = d.mul(z2).sub(Fixed { raw: 142_089 });
    let f = e.mul(z2).add(Fixed { raw: 199_936 });
    let g = f.mul(z2).sub(Fixed { raw: 333_331 });
    let h = g.mul(z2).add(Fixed { raw: 1_000_000 });
    z.mul(h)
}

/// The angle of the point `(x, y)`: the arctangent of the smaller
/// coordinate over the larger, carried to the point's octant. The origin
/// has angle zero.
pub open spec fn atan2_spec(y: Fixed, x: Fixed) -> Fixed {
    if x.raw == 0 && y.raw == 0 {
        Fixed { raw: 0 }
    } else {
        let ax = x.abs();
        let ay = y.abs();
        let first = if ay.raw <= ax.raw {
            atan_unit_spec(ay.div(ax))
        } else {
            Fixed { raw: HALF_PI_RAW }.sub(atan_unit_spec(ax.div(ay)))
        };
        let upper = if x.raw < 0 {
            Fixed { raw: PI_RAW }.sub(first)
        } else {
            first
        };
        if y.raw < 0 {
            upper.neg()
        } else {
            upper
        }
    }
}

/// The angle, in `[-pi, pi]`, from the positive x axis to the point `(x, y)`.
#[verifier::when_used_as_spec(atan2_spec)]
pub fn atan2(y: Fixed, x: Fixed) -> (r: Fixed)
    ensures
        r == atan2_spec(y, x),
{
    if x.raw == 0 && y.raw == 0 {
        Fixed { raw: 0 }
    } else {
        let ax = x.abs();
        let ay = y.abs();
        let first = if ay.raw <= ax.raw {
            atan_unit(ay.div(ax))
        } else {
            Fixed { raw: HALF_PI_RAW }.sub(atan_unit(ax.div(ay)))
        };
        let upper = if x.raw < 0 {
            Fixed { raw: PI_RAW }.sub(first)
        } else {
            first
        };
        if y.raw < 0 {
            upper.neg()
        } else {
            upper
        }
    }
}

/// The arcsine: the angle of the point at height `y` and at the
/// distance `sqrt(1 - y²)` from the axis.
pub open spec fn asin_spec(y: Fixed) -> Fixed {
    atan2_spec(y, Fixed::one().sub(y.mul(y)).sqrt())
}

/// The arcsine: the angle of the point of the unit half circle at height
/// `y`. A height beyond one in size gives a quarter turn.
#[verifier::when_used_as_spec(asin_spec)]
pub fn asin(y: Fixed) -> (r: Fixed)
    ensures
        r == asin_spec(y),
{
    atan2(y, Fixed::one().sub(y.mul(y)).sqrt())
}

/// The arctangent of a slope from zero to one lies from zero to one.
pub proof fn lemma_atan_unit_range(z: Fixed)
    requires
        0 <= z.raw <= SCALE,
    ensures
        0 <= atan_unit_spec(z).raw <= SCALE,
{
    lemma_mul_by_fraction(z, z);
    let z2 = z.mul(z);
    lemma_mul_by_fraction(Fixed { raw: 2_866 }, z2);
    let a = Fixed { raw: 2_866 }.mul(z2).sub(Fixed { raw: 16_166 });
    lemma_mul_by_fraction(a, z2);
    let b = a.mul(z2).add(Fixed { raw: 42_910 });
    lemma_mul_by_fraction(b, z2);
    let c = b.mul(z2).sub(Fixed { raw: 75_290 });
    lemma_mul_by_fraction(c, z2);
    let d = c.mul(z2).add(Fixed { raw: 106_563 });
    lemma_mul_by_fraction(d, z2);
    let e = d.mul(z2).sub(Fixed { raw: 142_089 });
    lemma_mul_by_fraction(e, z2);
    let f = e.mul(z2).add(Fixed { raw: 199_936 });
    lemma_mul_by_fraction(f, z2);
    let g = f.mul(z2).sub(Fixed { raw: 333_331 });
    lemma_mul_by_fraction(g, z2);
    let h = g.mul(z2).add(Fixed { raw: 1_000_000 });
    assert(666_669 <= h.raw <= 1_000_000);
    lemma_mul_by_fraction(z, h);
}

/// The angle of a point lies from minus pi to pi, and within a quarter
/// turn of zero for a point that is not left of the y axis.
pub proof fn lemma_atan2_range(y: Fixed, x: Fixed)
    ensures
        -PI_RAW <= atan2_spec(y, x).raw <= PI_RAW,
        x.raw >= 0 ==> -HALF_PI_RAW <= atan2_spec(y, x).raw <= HALF_PI_RAW,
{
    if !(x.raw == 0 && y.raw == 0) {
        let ax = x.abs();
        let ay = y.abs();
        if ay.raw <= ax.raw {
            lemma_div_is_fraction(ay, ax);
            lemma_atan_unit_range(ay.div(ax));
        } else {
            lemma_div_is_fraction(ax, ay);
            lemma_atan_unit_range(ax.div(ay));
        }
    }
}

/// The arcsine lies within a quarter turn of zero.
pub proof fn lemma_asin_range(y: Fixed)
    ensures
        -HALF_PI_RAW <= asin_spec(y).raw <= HALF_PI_RAW,
{
    lemma_sqrt_not_negative(Fixed::one().sub(y.mul(y)));
    lemma_atan2_range(y, Fixed::one().sub(y.mul(y)).sqrt());
}

} // verus!
