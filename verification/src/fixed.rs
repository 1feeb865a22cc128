//! Saturating decimal fixed-point scalars.
//!
//! A [`Fixed`] holds a signed count of millionths. Every operation is total:
//! a result that does not fit is pinned to the nearer end of the range, so
//! the two ends behave like infinities, and quotients and products are
//! rounded toward zero. The range is the same to both sides of zero, from
//! [`LEAST_RAW`] to `i64::MAX`, so that the negative of a result is always
//! exact; only `i64::MIN` itself, which no operation gives, has none.

use vstd::prelude::*;

verus! {

/// Raw units per one.
pub const SCALE: i64 = 1_000_000;

/// The least raw value that an operation gives: the negative of the
/// greatest.
pub const LEAST_RAW: i64 = -0x7fff_ffff_ffff_ffff;

/// The nearest integer of the range from `LEAST_RAW` to `i64::MAX`.
pub open spec fn saturate(x: int) -> int {
    if x < LEAST_RAW as int {
        LEAST_RAW as int
    } else if x > i64::MAX as int {
        i64::MAX as int
    } else {
        x
    }
}

/// The quotient of `n` by a positive `d`, rounded toward zero.
pub open spec fn toward_zero(n: int, d: int) -> int
    recommends
        d > 0,
{
    if n >= 0 {
        n / d
    } else {
        -((-n) / d)
    }
}

/// The quotient of `n` by a non-zero `d`, rounded toward zero.
pub open spec fn quotient(n: int, d: int) -> int
    recommends
        d != 0,
{
    if d > 0 {
        toward_zero(n, d)
    } else {
        toward_zero(-n, -d)
    }
}

/// `r` is the integer square root of the natural number `n`.
pub open spec fn is_isqrt(n: int, r: int) -> bool {
    0 <= r && r * r <= n && n < (r + 1) * (r + 1)
}

/// The integer square root: the largest `r` with `r * r <= n`.
pub open spec fn isqrt(n: int) -> int {
    choose|r: int| is_isqrt(n, r)
}

/// Any two integer square roots of one number are equal.
pub proof fn lemma_isqrt_unique(n: int, r1: int, r2: int)
    requires
        is_isqrt(n, r1),
        is_isqrt(n, r2),
    ensures
        r1 == r2,
{
    if r1 < r2 {
        assert((r1 + 1) * (r1 + 1) <= r2 * r2) by (nonlinear_arith)
            requires
                0 <= r1,
                r1 + 1 <= r2,
        ;
    } else if r2 < r1 {
        assert((r2 + 1) * (r2 + 1) <= r1 * r1) by (nonlinear_arith)
            requires
                0 <= r2,
                r2 + 1 <= r1,
        ;
    }
}

/// A witness pins down `isqrt`.
pub proof fn lemma_isqrt_is(n: int, r: int)
    requires
        is_isqrt(n, r),
    ensures
        isqrt(n) == r,
{
    lemma_isqrt_unique(n, r, isqrt(n));
}

/// Every natural number has an integer square root.
pub proof fn lemma_isqrt_exists(n: int)
    requires
        0 <= n,
    ensures
        is_isqrt(n, isqrt(n)),
    decreases n,
{
    if n == 0 {
        assert(is_isqrt(0, 0));
    } else {
        lemma_isqrt_exists(n - 1);
        let r = isqrt(n - 1);
        if (r + 1) * (r + 1) <= n {
            assert((r + 2) * (r + 2) > (r + 1) * (r + 1)) by (nonlinear_arith)
                requires
                    0 <= r,
            ;
            assert(is_isqrt(n, r + 1));
        } else {
            assert(is_isqrt(n, r));
        }
    }
}

/// Rounding toward zero keeps the order of the dividends.
pub proof fn lemma_toward_zero_monotone(x: int, y: int, d: int)
    requires
        x <= y,
        d > 0,
    ensures
        toward_zero(x, d) <= toward_zero(y, d),
{
    if x >= 0 {
        vstd::arithmetic::div_mod::lemma_div_is_ordered(x, y, d);
    } else if y < 0 {
        vstd::arithmetic::div_mod::lemma_div_is_ordered(-y, -x, d);
    } else {
        vstd::arithmetic::div_mod::lemma_div_is_ordered(0, y, d);
        vstd::arithmetic::div_mod::lemma_div_is_ordered(0, -x, d);
    }
}

/// A fixed-point number: `raw` millionths.
#[derive(Clone, Copy, PartialEq, Eq, Structural, Debug)]
pub struct Fixed {
    pub raw: i64,
}

/// The nearest `i64` to `x`.
fn narrow(x: i128) -> (r: i64)
    ensures
        r as int == saturate(x as int),
{
    if x < LEAST_RAW as i128 {
        LEAST_RAW
    } else if x > i64::MAX as i128 {
        i64::MAX
    } else {
        x as i64
    }
}

/// The exact product of two raw values.
fn product(a: i64, b: i64) -> (r: i128)
    ensures
        r as int == a as int * b as int,
        -0x4000_0000_0000_0000_0000_0000_0000_0000 <= r <= 0x4000_0000_0000_0000_0000_0000_0000_0000,
{
    assert(-0x8000_0000_0000_0000 * 0x8000_0000_0000_0000 <= (a as int) * (b as int)
        <= 0x8000_0000_0000_0000 * 0x8000_0000_0000_0000) by (nonlinear_arith)
        requires
            -0x8000_0000_0000_0000 <= a <= 0x7fff_ffff_ffff_ffff,
            -0x8000_0000_0000_0000 <= b <= 0x7fff_ffff_ffff_ffff,
    ;
    (a as i128) * (b as i128)
}

/// The quotient of `n` by `d`, rounded toward zero.
fn divide(n: i128, d: i128) -> (r: i128)
    requires
        d != 0,
        -0x4000_0000_0000_0000_0000_0000_0000_0000 <= n <= 0x4000_0000_0000_0000_0000_0000_0000_0000,
        -0x4000_0000_0000_0000_0000_0000_0000_0000 <= d <= 0x4000_0000_0000_0000_0000_0000_0000_0000,
    ensures
        r as int == quotient(n as int, d as int),
{
    let (num, den): (i128, i128) = if d > 0 {
        (n, d)
    } else {
        (-n, -d)
    };
    if num >= 0 {
        num / den
    } else {
        let m: i128 = -num;
        assert(0 <= (m as int) / (den as int) <= m as int) by (nonlinear_arith)
            requires
                0 <= m,
                den > 0,
        ;
        -(m / den)
    }
}

/// The integer square root, found by bisection.
fn integer_sqrt(n: u128) -> (r: u128)
    requires
        n < 0x1_0000_0000_0000_0000_0000_0000,
    ensures
        is_isqrt(n as int, r as int),
        r < 0x1_0000_0000_0000,
{
    let mut lo: u128 = 0;
    let mut hi: u128 = 0x1_0000_0000_0000;
    assert(0x1_0000_0000_0000int * 0x1_0000_0000_0000int == 0x1_0000_0000_0000_0000_0000_0000int);
    while hi - lo > 1
        invariant
            lo < hi <= 0x1_0000_0000_0000,
            lo * lo <= n,
            n < hi * hi,
        decreases hi - lo,
    {
        let mid: u128 = lo + (hi - lo) / 2;
        assert(mid * mid < 0x1_0000_0000_0000 * 0x1_0000_0000_0000) by (nonlinear_arith)
            requires
                0 <= mid < 0x1_0000_0000_0000,
        ;
        if mid * mid <= n {
            lo = mid;
        } else {
            hi = mid;
        }
    }
    lo
}

impl Fixed {
    /// Zero.
    pub open spec fn zero_spec() -> Fixed {
        Fixed { raw: 0 }
    }

    /// One.
    pub open spec fn one_spec() -> Fixed {
        Fixed { raw: SCALE }
    }

    /// The largest value.
    pub open spec fn max_value_spec() -> Fixed {
        Fixed { raw: i64::MAX }
    }

    /// The smallest value.
    pub open spec fn min_value_spec() -> Fixed {
        Fixed { raw: LEAST_RAW }
    }

    /// The whole number `n`, or the nearest value.
    pub open spec fn from_int_spec(n: i64) -> Fixed {
        Fixed { raw: saturate(n as int * SCALE as int) as i64 }
    }

    /// `n` thousandths, or the nearest value.
    pub open spec fn from_millis_spec(n: i64) -> Fixed {
        Fixed { raw: saturate(n as int * 1000) as i64 }
    }

    /// The fraction `num / den`, rounded toward zero; an end of the range
    /// for a non-zero numerator over zero, and zero for zero over zero.
    pub open spec fn from_ratio_spec(num: i64, den: i64) -> Fixed {
        if den == 0 {
            Fixed { raw: if num > 0 { i64::MAX } else if num < 0 { LEAST_RAW } else { 0 } }
        } else {
            Fixed { raw: saturate(quotient(num as int * SCALE as int, den as int)) as i64 }
        }
    }

    /// The sum, or the nearest value.
    pub open spec fn add_spec(self, rhs: Fixed) -> Fixed {
        Fixed { raw: saturate(self.raw as int + rhs.raw as int) as i64 }
    }

    /// The difference, or the nearest value.
    pub open spec fn sub_spec(self, rhs: Fixed) -> Fixed {
        Fixed { raw: saturate(self.raw as int - rhs.raw as int) as i64 }
    }

    /// The negative; the largest value for the smallest.
    pub open spec fn neg_spec(self) -> Fixed {
        Fixed { raw: saturate(-(self.raw as int)) as i64 }
    }

    /// The size; the largest value for the smallest.
    pub open spec fn abs_spec(self) -> Fixed {
        if self.raw < 0 {
            self.neg_spec()
        } else {
            self
        }
    }

    /// The product, rounded toward zero, or the nearest value.
    #[verifier::opaque]
    pub open spec fn mul_spec(self, rhs: Fixed) -> Fixed {
        Fixed { raw: saturate(toward_zero(self.raw as int * rhs.raw as int, SCALE as int)) as i64 }
    }

    /// Division by zero gives the end of the range on the side of the
    /// dividend's sign, and zero for zero by zero.
    #[verifier::opaque]
    pub open spec fn div_spec(self, rhs: Fixed) -> Fixed {
        if rhs.raw == 0 {
            Fixed {
                raw: if self.raw > 0 {
                    i64::MAX
                } else if self.raw < 0 {
                    LEAST_RAW
                } else {
                    0
                },
            }
        } else {
            Fixed {
                raw: saturate(quotient(self.raw as int * SCALE as int, rhs.raw as int)) as i64,
            }
        }
    }

    /// The square root of the larger of `self` and zero, rounded down.
    #[verifier::opaque]
    pub open spec fn sqrt_spec(self) -> Fixed {
        if self.raw <= 0 {
            Fixed { raw: 0 }
        } else {
            Fixed { raw: isqrt(self.raw as int * SCALE as int) as i64 }
        }
    }

    /// The lesser of the two.
    pub open spec fn min_spec(self, rhs: Fixed) -> Fixed {
        if self.raw <= rhs.raw {
            self
        } else {
            rhs
        }
    }

    /// The greater of the two.
    pub open spec fn max_spec(self, rhs: Fixed) -> Fixed {
        if self.raw >= rhs.raw {
            self
        } else {
            rhs
        }
    }

    /// The whole number of ones below or at `self`.
    pub open spec fn floor_units_spec(self) -> i64 {
        (self.raw as int / SCALE as int) as i64
    }

    /// What lies above the floor: between zero and one.
    pub open spec fn fract_spec(self) -> Fixed {
        Fixed { raw: (self.raw as int % SCALE as int) as i64 }
    }

    /// `self < rhs`.
    pub open spec fn lt_spec(self, rhs: Fixed) -> bool {
        self.raw < rhs.raw
    }

    /// `self <= rhs`.
    pub open spec fn le_spec(self, rhs: Fixed) -> bool {
        self.raw <= rhs.raw
    }

    /// `self > rhs`.
    pub open spec fn gt_spec(self, rhs: Fixed) -> bool {
        self.raw > rhs.raw
    }

    /// `self >= rhs`.
    pub open spec fn ge_spec(self, rhs: Fixed) -> bool {
        self.raw >= rhs.raw
    }

    /// Zero.
    #[verifier::when_used_as_spec(zero_spec)]
    pub fn zero() -> (r: Fixed)
        ensures
            r == Fixed::zero_spec(),
    {
        Fixed { raw: 0 }
    }

    /// One.
    #[verifier::when_used_as_spec(one_spec)]
    pub fn one() -> (r: Fixed)
        ensures
            r == Fixed::one_spec(),
    {
        Fixed { raw: SCALE }
    }

    /// The largest value; it stands for plus infinity.
    #[verifier::when_used_as_spec(max_value_spec)]
    pub fn max_value() -> (r: Fixed)
        ensures
            r == Fixed::max_value_spec(),
    {
        Fixed { raw: i64::MAX }
    }

    /// The least value that an operation gives; it stands for minus
    /// infinity.
    #[verifier::when_used_as_spec(min_value_spec)]
    pub fn min_value() -> (r: Fixed)
        ensures
            r == Fixed::min_value_spec(),
    {
        Fixed { raw: LEAST_RAW }
    }

    /// The number of `raw` millionths.
    pub fn from_raw(raw: i64) -> (r: Fixed)
        ensures
            r.raw == raw,
    {
        Fixed { raw }
    }

    /// The number in millionths.
    pub fn raw(self) -> (r: i64)
        ensures
            r == self.raw,
    {
        self.raw
    }

    /// The whole number `n`.
    #[verifier::when_used_as_spec(from_int_spec)]
    pub fn from_int(n: i64) -> (r: Fixed)
        ensures
            r == Fixed::from_int_spec(n),
    {
        Fixed { raw: narrow(product(n, SCALE)) }
    }

    /// `n` thousandths.
    #[verifier::when_used_as_spec(from_millis_spec)]
    pub fn from_millis(n: i64) -> (r: Fixed)
        ensures
            r == Fixed::from_millis_spec(n),
    {
        Fixed { raw: narrow(product(n, 1000)) }
    }

    /// The fraction `num / den`, rounded toward zero.
    #[verifier::when_used_as_spec(from_ratio_spec)]
    pub fn from_ratio(num: i64, den: i64) -> (r: Fixed)
        ensures
            r == Fixed::from_ratio_spec(num, den),
    {
        if den == 0 {
            Fixed { raw: if num > 0 { i64::MAX } else if num < 0 { LEAST_RAW } else { 0 } }
        } else {
            Fixed { raw: narrow(divide(product(num, SCALE), den as i128)) }
        }
    }

    /// The sum, pinned to the range.
    #[verifier::when_used_as_spec(add_spec)]
    pub fn add(self, rhs: Fixed) -> (r: Fixed)
        ensures
            r == self.add_spec(rhs),
    {
        Fixed { raw: narrow(self.raw as i128 + rhs.raw as i128) }
    }

    /// The difference, pinned to the range.
    #[verifier::when_used_as_spec(sub_spec)]
    pub fn sub(self, rhs: Fixed) -> (r: Fixed)
        ensures
            r == self.sub_spec(rhs),
    {
        Fixed { raw: narrow(self.raw as i128 - rhs.raw as i128) }
    }

    /// The negative, pinned to the range.
    #[verifier::when_used_as_spec(neg_spec)]
    pub fn neg(self) -> (r: Fixed)
        ensures
            r == self.neg_spec(),
    {
        Fixed { raw: narrow(-(self.raw as i128)) }
    }

    /// The size, pinned to the range.
    #[verifier::when_used_as_spec(abs_spec)]
    pub fn abs(self) -> (r: Fixed)
        ensures
            r == self.abs_spec(),
    {
        if self.raw < 0 {
            self.neg()
        } else {
            self
        }
    }

    /// The product, rounded toward zero and pinned to the range.
    #[verifier::when_used_as_spec(mul_spec)]
    pub fn mul(self, rhs: Fixed) -> (r: Fixed)
        ensures
            r == self.mul_spec(rhs),
            r.raw >= LEAST_RAW,
    {
        reveal(Fixed::mul_spec);
        let p: i128 = product(self.raw, rhs.raw);
        Fixed { raw: narrow(divide(p, SCALE as i128)) }
    }

    /// The quotient, rounded toward zero and pinned to the range; by zero,
    /// the end of the range on the side of the sign of `self`.
    #[verifier::when_used_as_spec(div_spec)]
    pub fn div(self, rhs: Fixed) -> (r: Fixed)
        ensures
            r == self.div_spec(rhs),
            r.raw >= LEAST_RAW,
    {
        reveal(Fixed::div_spec);
        if rhs.raw == 0 {
            Fixed {
                raw: if self.raw > 0 {
                    i64::MAX
                } else if self.raw < 0 {
                    LEAST_RAW
                } else {
                    0
                },
            }
        } else {
            Fixed { raw: narrow(divide(product(self.raw, SCALE), rhs.raw as i128)) }
        }
    }

    /// The square root, rounded down; zero for a negative number.
    #[verifier::when_used_as_spec(sqrt_spec)]
    pub fn sqrt(self) -> (r: Fixed)
        ensures
            r == self.sqrt_spec(),
    {
        reveal(Fixed::sqrt_spec);
        if self.raw <= 0 {
            Fixed { raw: 0 }
        } else {
            let n: u128 = (self.raw as u128) * (SCALE as u128);
            let root: u128 = integer_sqrt(n);
            proof {
                lemma_isqrt_is(n as int, root as int);
            }
            Fixed { raw: root as i64 }
        }
    }

    /// The lesser of the two.
    #[verifier::when_used_as_spec(min_spec)]
    pub fn min(self, rhs: Fixed) -> (r: Fixed)
        ensures
            r == self.min_spec(rhs),
    {
        if self.raw <= rhs.raw {
            self
        } else {
            rhs
        }
    }

    /// The greater of the two.
    #[verifier::when_used_as_spec(max_spec)]
    pub fn max(self, rhs: Fixed) -> (r: Fixed)
        ensures
            r == self.max_spec(rhs),
    {
        if self.raw >= rhs.raw {
            self
        } else {
            rhs
        }
    }

    /// The greatest whole number not above `self`.
    #[verifier::when_used_as_spec(floor_units_spec)]
    pub fn floor_units(self) -> (r: i64)
        ensures
            r == self.floor_units_spec(),
    {
        if self.raw >= 0 {
            self.raw / SCALE
        } else {
            let m: i64 = -(self.raw + 1);
            -(m / SCALE) - 1
        }
    }

    /// `self` less its floor: from zero up to one.
    #[verifier::when_used_as_spec(fract_spec)]
    pub fn fract(self) -> (r: Fixed)
        ensures
            r == self.fract_spec(),
    {
        if self.raw >= 0 {
            Fixed { raw: self.raw % SCALE }
        } else {
            let m: i64 = -(self.raw + 1);
            Fixed { raw: SCALE - 1 - (m % SCALE) }
        }
    }

    /// `self < rhs`.
    #[verifier::when_used_as_spec(lt_spec)]
    pub fn lt(self, rhs: Fixed) -> (r: bool)
        ensures
            r == self.lt_spec(rhs),
    {
        self.raw < rhs.raw
    }

    /// `self <= rhs`.
    #[verifier::when_used_as_spec(le_spec)]
    pub fn le(self, rhs: Fixed) -> (r: bool)
        ensures
            r == self.le_spec(rhs),
    {
        self.raw <= rhs.raw
    }

    /// `self > rhs`.
    #[verifier::when_used_as_spec(gt_spec)]
    pub fn gt(self, rhs: Fixed) -> (r: bool)
        ensures
            r == self.gt_spec(rhs),
    {
        self.raw > rhs.raw
    }

    /// `self >= rhs`.
    #[verifier::when_used_as_spec(ge_spec)]
    pub fn ge(self, rhs: Fixed) -> (r: bool)
        ensures
            r == self.ge_spec(rhs),
    {
        self.raw >= rhs.raw
    }
}

impl Default for Fixed {
    /// Zero.
    fn default() -> (r: Fixed)
        ensures
            r == Fixed::zero_spec(),
    {
        Fixed::zero()
    }
}

/// `x` held to the interval from `min` to `max`.
pub open spec fn clamp_spec(x: Fixed, min: Fixed, max: Fixed) -> Fixed {
    if x.raw < min.raw {
        min
    } else if x.raw > max.raw {
        max
    } else {
        x
    }
}

/// `x` held to the interval from `min` to `max`.
#[verifier::when_used_as_spec(clamp_spec)]
pub fn clamp(x: Fixed, min: Fixed, max: Fixed) -> (r: Fixed)
    ensures
        r == clamp_spec(x, min, max),
{
    if x.raw < min.raw {
        min
    } else if x.raw > max.raw {
        max
    } else {
        x
    }
}

/// A quotient rounded toward zero is off by less than one, toward zero.
pub proof fn lemma_toward_zero_accuracy(n: int, d: int)
    requires
        d > 0,
    ensures
        n >= 0 ==> toward_zero(n, d) * d <= n < toward_zero(n, d) * d + d,
        n <= 0 ==> toward_zero(n, d) * d - d < n <= toward_zero(n, d) * d,
{
    if n >= 0 {
        vstd::arithmetic::div_mod::lemma_fundamental_div_mod(n, d);
        assert(d * (n / d) == (n / d) * d) by (nonlinear_arith);
    } else {
        vstd::arithmetic::div_mod::lemma_fundamental_div_mod(-n, d);
        assert(d * ((-n) / d) == ((-n) / d) * d) by (nonlinear_arith);
        assert((-((-n) / d)) * d == -(((-n) / d) * d)) by (nonlinear_arith);
    }
}

/// The product of two numbers in units of a millionth of a millionth.
pub open spec fn exact_product(a: Fixed, b: Fixed) -> int {
    a.raw as int * b.raw as int
}

/// A product that fits is the exact product of the two numbers, rounded
/// toward zero to a millionth.
pub proof fn lemma_mul_accuracy(a: Fixed, b: Fixed)
    requires
        LEAST_RAW as int * SCALE as int <= exact_product(a, b) <= i64::MAX as int * SCALE as int,
    ensures
        exact_product(a, b) >= 0 ==> a.mul_spec(b).raw * SCALE <= exact_product(a, b) < a.mul_spec(
            b,
        ).raw * SCALE + SCALE,
        exact_product(a, b) <= 0 ==> a.mul_spec(b).raw * SCALE - SCALE < exact_product(a, b)
            <= a.mul_spec(b).raw * SCALE,
{
    reveal(Fixed::mul_spec);
    let exact = exact_product(a, b);
    lemma_toward_zero_accuracy(exact, SCALE as int);
    lemma_toward_zero_monotone(exact, i64::MAX as int * SCALE as int, SCALE as int);
    lemma_toward_zero_monotone(LEAST_RAW as int * SCALE as int, exact, SCALE as int);
    assert(toward_zero(i64::MAX as int * SCALE as int, SCALE as int) == i64::MAX as int) by {
        vstd::arithmetic::div_mod::lemma_div_multiples_vanish(i64::MAX as int, SCALE as int);
    }
    assert(toward_zero(LEAST_RAW as int * SCALE as int, SCALE as int) == LEAST_RAW as int) by {
        vstd::arithmetic::div_mod::lemma_div_multiples_vanish(-(LEAST_RAW as int), SCALE as int);
    }
}

/// The square of a square root is at most the number, and the square of
/// the next greater value is above it.
pub proof fn lemma_sqrt_accuracy(a: Fixed)
    requires
        a.raw >= 0,
    ensures
        a.sqrt_spec().raw * a.sqrt_spec().raw <= a.raw * SCALE,
        a.raw * SCALE < (a.sqrt_spec().raw + 1) * (a.sqrt_spec().raw + 1),
{
    reveal(Fixed::sqrt_spec);
    lemma_sqrt_not_negative(a);
    if a.raw > 0 {
        let n = a.raw as int * SCALE as int;
        lemma_isqrt_exists(n);
        let r = isqrt(n);
        assert(r < 0x1_0000_0000_0000) by (nonlinear_arith)
            requires
                0 <= r,
                r * r <= n,
                n < 0x1_0000_0000_0000_0000_0000_0000,
        ;
    }
}

/// A product and a quotient lie in the range that negation keeps.
pub proof fn lemma_results_in_range(a: Fixed, b: Fixed)
    ensures
        a.mul_spec(b).raw >= LEAST_RAW,
        a.div_spec(b).raw >= LEAST_RAW,
{
    reveal(Fixed::mul_spec);
    reveal(Fixed::div_spec);
}

/// A product with the negative of a number is the negative of the
/// product with the number.
pub proof fn lemma_mul_neg(a: Fixed, b: Fixed)
    requires
        b.raw >= LEAST_RAW,
    ensures
        a.mul_spec(b.neg_spec()) == a.mul_spec(b).neg_spec(),
{
    reveal(Fixed::mul_spec);
    assert(a.raw as int * (-(b.raw as int)) == -(a.raw as int * b.raw as int)) by (nonlinear_arith);
}

/// A product with a factor from zero to one is no larger in size than the
/// other factor, and has its sign or is zero.
pub proof fn lemma_mul_by_fraction(a: Fixed, b: Fixed)
    requires
        0 <= b.raw <= SCALE,
    ensures
        a.raw >= 0 ==> 0 <= a.mul_spec(b).raw <= a.raw,
        a.raw <= 0 ==> a.raw <= a.mul_spec(b).raw <= 0 || (a.raw == i64::MIN && a.mul_spec(b).raw
            <= 0),
        b.mul_spec(a) == a.mul_spec(b),
{
    reveal(Fixed::mul_spec);
    lemma_mul_commutes(a, b);
    let x = a.raw as int;
    let y = b.raw as int;
    if x >= 0 {
        assert(0 <= x * y <= x * SCALE) by (nonlinear_arith)
            requires
                0 <= x,
                0 <= y <= SCALE,
        ;
        lemma_toward_zero_monotone(0, x * y, SCALE as int);
        lemma_toward_zero_monotone(x * y, x * SCALE, SCALE as int);
        assert(x * SCALE == SCALE * x) by (nonlinear_arith);
        vstd::arithmetic::div_mod::lemma_div_multiples_vanish(x, SCALE as int);
    } else {
        assert(x * SCALE <= x * y <= 0) by (nonlinear_arith)
            requires
                x <= 0,
                0 <= y <= SCALE,
        ;
        lemma_toward_zero_monotone(x * y, 0, SCALE as int);
        lemma_toward_zero_monotone(x * SCALE, x * y, SCALE as int);
        assert(-(x * SCALE) == SCALE * (-x)) by (nonlinear_arith);
        vstd::arithmetic::div_mod::lemma_div_multiples_vanish(-x, SCALE as int);
    }
}

/// The quotient of a number that is not negative by one that is not less
/// lies from zero to one.
pub proof fn lemma_div_is_fraction(a: Fixed, b: Fixed)
    requires
        0 <= a.raw <= b.raw,
        0 < b.raw,
    ensures
        0 <= a.div_spec(b).raw <= SCALE,
{
    reveal(Fixed::div_spec);
    let x = a.raw as int;
    let y = b.raw as int;
    assert(0 <= x * SCALE <= y * SCALE) by (nonlinear_arith)
        requires
            0 <= x <= y,
    ;
    vstd::arithmetic::div_mod::lemma_div_is_ordered(0, x * SCALE, y);
    vstd::arithmetic::div_mod::lemma_div_is_ordered(x * SCALE, y * SCALE, y);
    assert(y * SCALE == y * (SCALE as int));
    vstd::arithmetic::div_mod::lemma_div_multiples_vanish(SCALE as int, y);
}

/// A number divided by itself is one.
pub proof fn lemma_div_by_itself(a: Fixed)
    requires
        a.raw != 0,
        a.raw >= LEAST_RAW,
    ensures
        a.div_spec(a) == Fixed::one_spec(),
{
    reveal(Fixed::div_spec);
    let x = a.raw as int;
    if x > 0 {
        assert(x * SCALE == x * (SCALE as int));
        vstd::arithmetic::div_mod::lemma_div_multiples_vanish(SCALE as int, x);
    } else {
        assert(-(x * SCALE) == (-x) * (SCALE as int)) by (nonlinear_arith);
        vstd::arithmetic::div_mod::lemma_div_multiples_vanish(SCALE as int, -x);
    }
}

/// The square root of a number that is at most one is at most one.
pub proof fn lemma_sqrt_at_most_one(a: Fixed)
    requires
        a.raw <= SCALE,
    ensures
        0 <= a.sqrt_spec().raw <= SCALE,
{
    lemma_sqrt_not_negative(a);
    if a.raw > 0 {
        lemma_sqrt_accuracy(a);
        let r = a.sqrt_spec().raw as int;
        let x = a.raw as int;
        assert(r <= SCALE) by (nonlinear_arith)
            requires
                0 <= r,
                r * r <= x * SCALE,
                0 < x <= SCALE,
        ;
    } else {
        reveal(Fixed::sqrt_spec);
    }
}

/// One is the unit of multiplication.
pub proof fn lemma_mul_by_one(a: Fixed)
    requires
        a.raw >= LEAST_RAW,
    ensures
        a.mul_spec(Fixed::one_spec()) == a,
        Fixed::one_spec().mul_spec(a) == a,
{
    reveal(Fixed::mul_spec);
    let product = a.raw as int * SCALE as int;
    assert(SCALE as int * a.raw as int == a.raw as int * SCALE as int) by (nonlinear_arith);
    if a.raw >= 0 {
        vstd::arithmetic::div_mod::lemma_div_multiples_vanish(a.raw as int, SCALE as int);
    } else {
        assert(-product == SCALE as int * (-(a.raw as int))) by (nonlinear_arith)
            requires
                product == a.raw as int * SCALE as int,
        ;
        vstd::arithmetic::div_mod::lemma_div_multiples_vanish(-(a.raw as int), SCALE as int);
    }
}

/// A product with zero is zero.
pub proof fn lemma_mul_by_zero(a: Fixed)
    ensures
        a.mul_spec(Fixed::zero_spec()) == Fixed::zero_spec(),
        Fixed::zero_spec().mul_spec(a) == Fixed::zero_spec(),
{
    reveal(Fixed::mul_spec);
    assert(a.raw as int * 0 == 0) by (nonlinear_arith);
    assert(0 * a.raw as int == 0) by (nonlinear_arith);
}

/// A product does not depend on the order of its factors.
pub proof fn lemma_mul_commutes(a: Fixed, b: Fixed)
    ensures
        a.mul_spec(b) == b.mul_spec(a),
{
    reveal(Fixed::mul_spec);
    assert(a.raw as int * b.raw as int == b.raw as int * a.raw as int) by (nonlinear_arith);
}

/// A square is not negative.
pub proof fn lemma_square_not_negative(a: Fixed)
    ensures
        a.mul_spec(a).raw >= 0,
{
    reveal(Fixed::mul_spec);
    assert(a.raw as int * a.raw as int >= 0) by (nonlinear_arith);
    vstd::arithmetic::div_mod::lemma_div_is_ordered(0, a.raw as int * a.raw as int, SCALE as int);
}

/// A square root is not negative.
pub proof fn lemma_sqrt_not_negative(a: Fixed)
    ensures
        a.sqrt_spec().raw >= 0,
{
    reveal(Fixed::sqrt_spec);
    if a.raw > 0 {
        let n = a.raw as int * SCALE as int;
        lemma_isqrt_exists(n);
        let r = isqrt(n);
        assert(r < 0x1_0000_0000_0000) by (nonlinear_arith)
            requires
                0 <= r,
                r * r <= n,
                n < 0x1_0000_0000_0000_0000_0000_0000,
        ;
    }
}

/// Division by a number that is not negative keeps the order of the
/// dividends.
pub proof fn lemma_div_monotone(x: Fixed, y: Fixed, d: Fixed)
    requires
        x.raw <= y.raw,
        d.raw >= 0,
    ensures
        x.div_spec(d).raw <= y.div_spec(d).raw,
{
    reveal(Fixed::div_spec);
    if d.raw > 0 {
        lemma_toward_zero_monotone(
            x.raw as int * SCALE as int,
            y.raw as int * SCALE as int,
            d.raw as int,
        );
    }
}

} // verus!
