//! Gradient noise on the integer lattice.

use vstd::prelude::*;
use crate::fixed::Fixed;
use crate::fixed::SCALE;
use crate::random::rand_with_range;
use crate::random::RandomSource;
use crate::vec3::Vec3;

verus! {

/// The number of entries of each table.
pub const POINT_COUNT: usize = 256;

/// The table that maps each index to itself.
pub open spec fn identity_table() -> Seq<u8> {
    Seq::new(256, |i: int| i as u8)
}

/// The residue of `n` modulo 256.
fn wrap_index(n: i64) -> (r: usize)
    ensures
        r as int == n as int % 256,
{
    if n >= 0 {
        (n % 256) as usize
    } else {
        let m: i64 = -(n + 1);
        (255 - (m % 256)) as usize
    }
}

/// A random reordering of the indices 0 to 255.
fn perlin_generate_perm(rng: &mut RandomSource) -> (p: Vec<u8>)
    ensures
        p@.len() == 256,
        p@.to_multiset() == identity_table().to_multiset(),
{
    let mut p: Vec<u8> = Vec::new();
    let mut i: usize = 0;
    while i < 256
        invariant
            i <= 256,
            p@.len() == i,
            forall|k: int| 0 <= k < i ==> p@[k] == k as u8,
        decreases 256 - i,
    {
        p.push(i as u8);
        i = i + 1;
    }
    assert(p@ =~= identity_table());
    rng.shuffle(&mut p);
    p
}

/// The smoothing weight `t² (3 - 2t)`.
pub open spec fn hermite_spec(t: Fixed) -> Fixed {
    t.mul(t).mul(Fixed::from_int(3).sub(Fixed::from_int(2).mul(t)))
}

/// The weight of the corner at offset `bit` (0 or 1) along an axis whose
/// smoothed fraction is `s`: `s` for the far corner, `1 - s` for the near.
pub open spec fn blend_spec(bit: int, s: Fixed) -> Fixed {
    if bit == 1 {
        s
    } else {
        Fixed::one().sub(s)
    }
}

/// What the corner with number `n` (offsets `n / 4`, `n / 2 % 2`, `n % 2`)
/// adds: the product of its three weights and of the dot product of its
/// gradient with the vector from the corner to the point.
pub open spec fn corner_term_spec(gradient: Vec3, n: int, u: Fixed, v: Fixed, w: Fixed) -> Fixed {
    let i = n / 4;
    let j = (n / 2) % 2;
    let k = n % 2;
    let to_point = Vec3(
        u.sub(Fixed::from_int(i as i64)),
        v.sub(Fixed::from_int(j as i64)),
        w.sub(Fixed::from_int(k as i64)),
    );
    blend_spec(i, hermite_spec(u)).mul(blend_spec(j, hermite_spec(v))).mul(
        blend_spec(k, hermite_spec(w)),
    ).mul(Vec3::dot(gradient, to_point))
}

/// The sum of the terms of the first `n` corners.
pub open spec fn interp_sum_spec(c: Seq<Vec3>, u: Fixed, v: Fixed, w: Fixed, n: nat) -> Fixed
    decreases n,
{
    if n == 0 {
        Fixed::zero()
    } else {
        interp_sum_spec(c, u, v, w, (n - 1) as nat).add(
            corner_term_spec(c[n - 1], n - 1, u, v, w),
        )
    }
}

/// Smoothed interpolation between the gradients of the eight corners of a
/// lattice cell, at the fractions `u`, `v`, `w` within the cell.
pub open spec fn trilinear_interp_spec(c: Seq<Vec3>, u: Fixed, v: Fixed, w: Fixed) -> Fixed {
    interp_sum_spec(c, u, v, w, 8)
}

/// The smoothing weight `t² (3 - 2t)`.
fn hermite(t: Fixed) -> (r: Fixed)
    ensures
        r == hermite_spec(t),
{
    t.mul(t).mul(Fixed::from_int(3).sub(Fixed::from_int(2).mul(t)))
}

/// The weight of a corner along one axis.
fn blend(bit: i64, s: Fixed) -> (r: Fixed)
    ensures
        r == blend_spec(bit as int, s),
{
    if bit == 1 {
        s
    } else {
        Fixed::one().sub(s)
    }
}

/// Smoothed interpolation between the gradients of eight corners.
fn trilinear_interp(c: &Vec<Vec3>, u: Fixed, v: Fixed, w: Fixed) -> (r: Fixed)
    requires
        c@.len() == 8,
    ensures
        r == trilinear_interp_spec(c@, u, v, w),
{
    let uu = hermite(u);
    let vv = hermite(v);
    let ww = hermite(w);
    let mut accum = Fixed::zero();
    let mut n: usize = 0;
    while n < 8
        invariant
            n <= 8,
            c@.len() == 8,
            uu == hermite_spec(u),
            vv == hermite_spec(v),
            ww == hermite_spec(w),
            accum == interp_sum_spec(c@, u, v, w, n as nat),
        decreases 8 - n,
    {
        let i: i64 = (n / 4) as i64;
        let j: i64 = ((n / 2) % 2) as i64;
        let k: i64 = (n % 2) as i64;
        let to_point = Vec3(
            u.sub(Fixed::from_int(i)),
            v.sub(Fixed::from_int(j)),
            w.sub(Fixed::from_int(k)),
        );
        let term = blend(i, uu).mul(blend(j, vv)).mul(blend(k, ww)).mul(Vec3::dot(c[n], to_point));
        assert(term == corner_term_spec(c@[n as int], n as int, u, v, w));
        accum = accum.add(term);
        n = n + 1;
    }
    accum
}

/// The weight of octave `k` of turbulence: one half to the power `k`.
pub open spec fn octave_weight_spec(k: nat) -> Fixed
    decreases k,
{
    if k == 0 {
        Fixed::one()
    } else {
        octave_weight_spec((k - 1) as nat).mul(Fixed::from_ratio(1, 2))
    }
}

/// The point at which octave `k` samples the noise: `point` doubled `k`
/// times.
pub open spec fn octave_point_spec(point: Vec3, k: nat) -> Vec3
    decreases k,
{
    if k == 0 {
        point
    } else {
        octave_point_spec(point, (k - 1) as nat).scale(Fixed::from_int(2))
    }
}

/// `g` is some vector of the cube `[-1, 1)³`, scaled to unit length.
pub open spec fn is_gradient(g: Vec3) -> bool {
    exists|v: Vec3|
        -SCALE <= v.0.raw < SCALE && -SCALE <= v.1.raw < SCALE && -SCALE <= v.2.raw < SCALE && g
            == #[trigger] Vec3::unit_vector_spec(v)
}

/// Tables of gradients and permutations, drawn once and fixed from then on.
pub struct Perlin {
    rand_vec: Vec<Vec3>,
    perm_x: Vec<u8>,
    perm_y: Vec<u8>,
    perm_z: Vec<u8>,
}

impl Perlin {
    /// Each table has its 256 entries.
    #[verifier::type_invariant]
    closed spec fn tables_are_full(self) -> bool {
        &&& self.rand_vec@.len() == 256
        &&& self.perm_x@.len() == 256
        &&& self.perm_y@.len() == 256
        &&& self.perm_z@.len() == 256
    }

    /// The 256 gradient vectors.
    pub closed spec fn gradients(&self) -> Seq<Vec3> {
        self.rand_vec@
    }

    /// The permutation table of an axis: 0 for x, 1 for y, otherwise z.
    pub closed spec fn permutation(&self, axis: int) -> Seq<u8> {
        if axis == 0 {
            self.perm_x@
        } else if axis == 1 {
            self.perm_y@
        } else {
            self.perm_z@
        }
    }

    /// The gradient of the lattice point `(i, j, k)`: the three
    /// coordinates, modulo 256, go through their permutation tables, and
    /// the exclusive or of what comes out picks the gradient.
    pub open spec fn gradient_at(&self, i: int, j: int, k: int) -> Vec3 {
        self.gradients()[(self.permutation(0)[i % 256] ^ self.permutation(1)[j % 256]
            ^ self.permutation(2)[k % 256]) as int]
    }

    /// The gradients of the eight corners of the cell that holds `p`,
    /// corner `n` at offsets `n / 4`, `n / 2 % 2`, `n % 2`.
    pub open spec fn corners_spec(&self, p: Vec3) -> Seq<Vec3> {
        Seq::new(
            8,
            |n: int|
                self.gradient_at(
                    p.0.floor_units() + n / 4,
                    p.1.floor_units() + (n / 2) % 2,
                    p.2.floor_units() + n % 2,
                ),
        )
    }

    /// The noise at `p`: the gradients of the corners of its lattice cell,
    /// interpolated at the fractional part of `p`.
    pub open spec fn noise_spec(&self, p: Vec3) -> Fixed {
        trilinear_interp_spec(self.corners_spec(p), p.0.fract(), p.1.fract(), p.2.fract())
    }

    /// The sum of the first `n` octaves at `point`, each at twice the
    /// frequency and half the weight of the one before.
    pub open spec fn turb_sum_spec(&self, point: Vec3, n: nat) -> Fixed
        decreases n,
    {
        if n == 0 {
            Fixed::zero()
        } else {
            self.turb_sum_spec(point, (n - 1) as nat).add(
                octave_weight_spec((n - 1) as nat).mul(
                    self.noise_spec(octave_point_spec(point, (n - 1) as nat)),
                ),
            )
        }
    }

    /// Turbulence: the size of the sum of `depth` octaves of noise; zero
    /// octaves when `depth` is not positive.
    pub open spec fn turb_with_depth_spec(&self, point: Vec3, depth: i32) -> Fixed {
        self.turb_sum_spec(
            point,
            if depth > 0 {
                depth as nat
            } else {
                0
            },
        ).abs()
    }

    /// Turbulence of seven octaves.
    pub open spec fn turb_spec(&self, point: Vec3) -> Fixed {
        self.turb_with_depth_spec(point, 7)
    }

    /// The tables are as `new` makes them: 256 gradients, each a vector of
    /// the cube `[-1, 1)³` scaled to unit length, and for each axis a
    /// reordering of 0 to 255.
    pub open spec fn freshly_made(&self) -> bool {
        &&& self.gradients().len() == 256
        &&& forall|i: int| 0 <= i < 256 ==> is_gradient(#[trigger] self.gradients()[i])
        &&& forall|axis: int| #[trigger]
            self.permutation(axis).to_multiset() == identity_table().to_multiset()
    }

    /// Fresh tables, drawn from `rng`.
    pub fn new(rng: &mut RandomSource) -> (r: Perlin)
        ensures
            r.freshly_made(),
    {
        let mut rand_vec: Vec<Vec3> = Vec::new();
        let mut i: usize = 0;
        while i < 256
            invariant
                i <= 256,
                rand_vec@.len() == i,
                forall|k: int| 0 <= k < i ==> is_gradient(#[trigger] rand_vec@[k]),
            decreases 256 - i,
        {
            let x = rand_with_range(rng, Fixed::from_int(-1), Fixed::from_int(1));
            let y = rand_with_range(rng, Fixed::from_int(-1), Fixed::from_int(1));
            let z = rand_with_range(rng, Fixed::from_int(-1), Fixed::from_int(1));
            let gradient = Vec3::unit_vector(Vec3(x, y, z));
            assert(is_gradient(gradient)) by {
                assert(gradient == Vec3::unit_vector_spec(Vec3(x, y, z)));
            }
            rand_vec.push(gradient);
            i = i + 1;
        }
        let perm_x = perlin_generate_perm(rng);
        let perm_y = perlin_generate_perm(rng);
        let perm_z = perlin_generate_perm(rng);
        Perlin { rand_vec, perm_x, perm_y, perm_z }
    }

    /// The gradient of a lattice point.
    fn gradient(&self, i: i64, j: i64, k: i64) -> (r: Vec3)
        ensures
            r == self.gradient_at(i as int, j as int, k as int),
    {
        proof {
            use_type_invariant(self);
        }
        let a: u8 = self.perm_x[wrap_index(i)];
        let b: u8 = self.perm_y[wrap_index(j)];
        let c: u8 = self.perm_z[wrap_index(k)];
        let index: u8 = a ^ b ^ c;
        self.rand_vec[index as usize]
    }

    /// The noise at `p`.
    #[verifier::when_used_as_spec(noise_spec)]
    pub fn noise(&self, p: Vec3) -> (r: Fixed)
        ensures
            r == self.noise_spec(p),
    {
        let u = p.x().fract();
        let v = p.y().fract();
        let w = p.z().fract();
        let i: i64 = p.x().floor_units();
        let j: i64 = p.y().floor_units();
        let k: i64 = p.z().floor_units();
        let mut c: Vec<Vec3> = Vec::new();
        let mut n: usize = 0;
        while n < 8
            invariant
                n <= 8,
                c@.len() == n,
                i == p.0.floor_units(),
                j == p.1.floor_units(),
                k == p.2.floor_units(),
                forall|m: int| 0 <= m < n ==> c@[m] == self.corners_spec(p)[m],
            decreases 8 - n,
        {
            let di: i64 = (n / 4) as i64;
            let dj: i64 = ((n / 2) % 2) as i64;
            let dk: i64 = (n % 2) as i64;
            c.push(self.gradient(i + di, j + dj, k + dk));
            n = n + 1;
        }
        assert(c@ =~= self.corners_spec(p));
        trilinear_interp(&c, u, v, w)
    }

    /// Turbulence of seven octaves at `point`.
    #[verifier::when_used_as_spec(turb_spec)]
    pub fn turb(&self, point: Vec3) -> (r: Fixed)
        ensures
            r == self.turb_spec(point),
    {
        self.turb_with_depth(point, 7)
    }

    /// Turbulence of `depth` octaves at `point`.
    #[verifier::when_used_as_spec(turb_with_depth_spec)]
    pub fn turb_with_depth(&self, point: Vec3, depth: i32) -> (r: Fixed)
        ensures
            r == self.turb_with_depth_spec(point, depth),
    {
        let mut accum = Fixed::zero();
        let mut weight = Fixed::one();
        let mut at = point;
        let mut n: i32 = 0;
        while n < depth
            invariant
                0 <= n,
                n <= depth || depth <= 0,
                depth <= 0 ==> n == 0,
                accum == self.turb_sum_spec(point, n as nat),
                weight == octave_weight_spec(n as nat),
                at == octave_point_spec(point, n as nat),
            decreases depth - n,
        {
            accum = accum.add(weight.mul(self.noise(at)));
            weight = weight.mul(Fixed::from_ratio(1, 2));
            at = at.scale(Fixed::from_int(2));
            n = n + 1;
        }
        accum.abs()
    }
}

} // verus!
