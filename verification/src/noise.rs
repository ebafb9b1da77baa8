//! Gradient noise on a lattice of random vectors.

use rand::seq::SliceRandom;
use vstd::prelude::*;
use crate::fixed::Fixed;
use crate::math::{dot, normalize, spec_dot, spec_normalize, Point3, Vec3};

verus! {

/// The weight of a lattice corner along one axis: `t` at the far corner
/// (`far`), `1 - t` at the near one.
pub open spec fn spec_corner_weight(far: bool, t: Fixed) -> Fixed {
    if far {
        t
    } else {
        Fixed::from_int(1).sub(t)
    }
}

/// The weight of a lattice corner along one axis.
#[verifier::when_used_as_spec(spec_corner_weight)]
pub fn corner_weight(far: bool, t: Fixed) -> (r: Fixed)
    ensures
        r == spec_corner_weight(far, t),
{
    if far {
        t
    } else {
        Fixed::from_int(1).sub(t)
    }
}

/// Zero or one as a fixed-point number.
pub open spec fn spec_step(far: bool) -> Fixed {
    if far {
        Fixed::from_int(1)
    } else {
        Fixed::from_int(0)
    }
}

/// Zero or one as a fixed-point number.
#[verifier::when_used_as_spec(spec_step)]
pub fn step(far: bool) -> (r: Fixed)
    ensures
        r == spec_step(far),
{
    if far {
        Fixed::from_int(1)
    } else {
        Fixed::from_int(0)
    }
}

/// The Hermite smoothing `t² (3 - 2 t)`.
pub open spec fn spec_hermite(t: Fixed) -> Fixed {
    t.mul(t).mul(Fixed::from_int(3).sub(Fixed::from_int(2).mul(t)))
}

/// The Hermite smoothing `t² (3 - 2 t)`.
#[verifier::when_used_as_spec(spec_hermite)]
pub fn hermite(t: Fixed) -> (r: Fixed)
    ensures
        r == spec_hermite(t),
{
    t.mul(t).mul(Fixed::from_int(3).sub(Fixed::from_int(2).mul(t)))
}

/// The position in a block of eight of the corner `(i, j, k)`.
pub open spec fn corner_index(i: bool, j: bool, k: bool) -> int {
    (if i { 4int } else { 0int }) + (if j { 2int } else { 0int }) + (if k { 1int } else { 0int })
}

/// The share of one corner in a trilinear interpolation of eight values at
/// the fractions `(u, v, w)`.
pub open spec fn spec_trilinear_term(
    c: Seq<Fixed>,
    u: Fixed,
    v: Fixed,
    w: Fixed,
    i: bool,
    j: bool,
    k: bool,
) -> Fixed {
    corner_weight(i, u).mul(corner_weight(j, v)).mul(corner_weight(k, w)).mul(
        c[corner_index(i, j, k)],
    )
}

/// The trilinear interpolation of the eight values `c`, the corner `(i, j, k)`
/// at position `4 i + 2 j + k`: the sum of the eight shares, taken in the
/// order of the positions.
pub open spec fn spec_trilinear_interp(c: Seq<Fixed>, u: Fixed, v: Fixed, w: Fixed) -> Fixed {
    Fixed::from_int(0).add(spec_trilinear_term(c, u, v, w, false, false, false)).add(
        spec_trilinear_term(c, u, v, w, false, false, true),
    ).add(spec_trilinear_term(c, u, v, w, false, true, false)).add(
        spec_trilinear_term(c, u, v, w, false, true, true),
    ).add(spec_trilinear_term(c, u, v, w, true, false, false)).add(
        spec_trilinear_term(c, u, v, w, true, false, true),
    ).add(spec_trilinear_term(c, u, v, w, true, true, false)).add(
        spec_trilinear_term(c, u, v, w, true, true, true),
    )
}

fn trilinear_term(c: &[Fixed; 8], u: Fixed, v: Fixed, w: Fixed, i: bool, j: bool, k: bool) -> (r:
    Fixed)
    ensures
        r == spec_trilinear_term(c@, u, v, w, i, j, k),
{
    let at: usize = (if i { 4usize } else { 0usize }) + (if j { 2usize } else { 0usize }) + (if k {
        1usize
    } else {
        0usize
    });
    corner_weight(i, u).mul(corner_weight(j, v)).mul(corner_weight(k, w)).mul(c[at])
}

/// The trilinear interpolation of eight values at the fractions `(u, v, w)`.
pub fn trilinear_interp(c: &[Fixed; 8], u: Fixed, v: Fixed, w: Fixed) -> (r: Fixed)
    ensures
        r == spec_trilinear_interp(c@, u, v, w),
{
    let mut acc = Fixed::from_int(0);
    acc = acc.add(trilinear_term(c, u, v, w, false, false, false));
    acc = acc.add(trilinear_term(c, u, v, w, false, false, true));
    acc = acc.add(trilinear_term(c, u, v, w, false, true, false));
    acc = acc.add(trilinear_term(c, u, v, w, false, true, true));
    acc = acc.add(trilinear_term(c, u, v, w, true, false, false));
    acc = acc.add(trilinear_term(c, u, v, w, true, false, true));
    acc = acc.add(trilinear_term(c, u, v, w, true, true, false));
    acc = acc.add(trilinear_term(c, u, v, w, true, true, true));
    acc
}

/// The share of one corner in a gradient interpolation: the smoothed weights
/// of the corner times the scalar product of its gradient with the offset
/// from the corner to the point.
pub open spec fn spec_perlin_term(
    c: Seq<Vec3>,
    u: Fixed,
    v: Fixed,
    w: Fixed,
    i: bool,
    j: bool,
    k: bool,
) -> Fixed {
    corner_weight(i, hermite(u)).mul(corner_weight(j, hermite(v))).mul(
        corner_weight(k, hermite(w)),
    ).mul(
        spec_dot(&c[corner_index(i, j, k)], &Vec3(u.sub(step(i)), v.sub(step(j)), w.sub(step(k)))),
    )
}

/// The gradient interpolation of the eight gradients `c` at the fractions
/// `(u, v, w)`: the sum of the eight shares, taken in the order of the positions.
pub open spec fn spec_perlin_interp(c: Seq<Vec3>, u: Fixed, v: Fixed, w: Fixed) -> Fixed {
    Fixed::from_int(0).add(spec_perlin_term(c, u, v, w, false, false, false)).add(
        spec_perlin_term(c, u, v, w, false, false, true),
    ).add(spec_perlin_term(c, u, v, w, false, true, false)).add(
        spec_perlin_term(c, u, v, w, false, true, true),
    ).add(spec_perlin_term(c, u, v, w, true, false, false)).add(
        spec_perlin_term(c, u, v, w, true, false, true),
    ).add(spec_perlin_term(c, u, v, w, true, true, false)).add(
        spec_perlin_term(c, u, v, w, true, true, true),
    )
}

fn perlin_term(c: &[Vec3; 8], u: Fixed, v: Fixed, w: Fixed, i: bool, j: bool, k: bool) -> (r: Fixed)
    ensures
        r == spec_perlin_term(c@, u, v, w, i, j, k),
{
    let at: usize = (if i { 4usize } else { 0usize }) + (if j { 2usize } else { 0usize }) + (if k {
        1usize
    } else {
        0usize
    });
    let weight_v = Vec3(u.sub(step(i)), v.sub(step(j)), w.sub(step(k)));
    corner_weight(i, hermite(u)).mul(corner_weight(j, hermite(v))).mul(
        corner_weight(k, hermite(w)),
    ).mul(dot(&c[at], &weight_v))
}

/// The gradient interpolation of eight gradients at the fractions `(u, v, w)`.
pub fn perlin_interp(c: &[Vec3; 8], u: Fixed, v: Fixed, w: Fixed) -> (r: Fixed)
    ensures
        r == spec_perlin_interp(c@, u, v, w),
{
    let mut acc = Fixed::from_int(0);
    acc = acc.add(perlin_term(c, u, v, w, false, false, false));
    acc = acc.add(perlin_term(c, u, v, w, false, false, true));
    acc = acc.add(perlin_term(c, u, v, w, false, true, false));
    acc = acc.add(perlin_term(c, u, v, w, false, true, true));
    acc = acc.add(perlin_term(c, u, v, w, true, false, false));
    acc = acc.add(perlin_term(c, u, v, w, true, false, true));
    acc = acc.add(perlin_term(c, u, v, w, true, true, false));
    acc = acc.add(perlin_term(c, u, v, w, true, true, true));
    acc
}

/// The table that holds each byte at its own position.
pub open spec fn identity_table() -> Seq<u8> {
    Seq::new(256, |i: int| i as u8)
}

/// The lattice cell of a coordinate: its whole part, and zero below zero.
pub open spec fn spec_lattice(x: Fixed) -> u64 {
    if x.floor_int() < 0 {
        0
    } else {
        x.floor_int() as u64
    }
}

/// The lattice cell of a coordinate: its whole part, and zero below zero.
#[verifier::when_used_as_spec(spec_lattice)]
pub fn lattice(x: Fixed) -> (r: u64)
    ensures
        r == spec_lattice(x),
        r <= 0x100_0000_0000,
{
    let cell: i64 = x.floor_int();
    if cell < 0 {
        0
    } else {
        cell as u64
    }
}

/// Shuffles the table in place with `SliceRandom::shuffle` of the `rand`
/// crate, on its thread-local generator. The shuffle is a run of swaps, so the
/// table holds afterwards what it held before, in some order.
#[verifier::external_body]
fn permute(table: &mut [u8; 256])
    ensures
        final(table)@.to_multiset() == old(table)@.to_multiset(),
{
    table.shuffle(&mut rand::thread_rng());
}

/// Three permutation tables and a table of gradients.
#[derive(Clone, Copy, Debug)]
pub struct Perlin {
    pub perm_x: [u8; 256],
    pub perm_y: [u8; 256],
    pub perm_z: [u8; 256],
    pub rand_vec: [Vec3; 256],
}

impl Perlin {
    /// The number of entries of each table.
    pub const POINT_COUNT: usize = 256;

    /// Whether each of the three tables holds every byte once.
    pub open spec fn is_shuffled(&self) -> bool {
        &&& self.perm_x@.to_multiset() == identity_table().to_multiset()
        &&& self.perm_y@.to_multiset() == identity_table().to_multiset()
        &&& self.perm_z@.to_multiset() == identity_table().to_multiset()
    }

    /// The gradient of the lattice point `(i, j, k)`: the entry of the
    /// gradient table at the exclusive or of the three permuted coordinates,
    /// each taken modulo 256.
    pub open spec fn spec_gradient(&self, i: u64, j: u64, k: u64) -> Vec3 {
        self.rand_vec[(self.perm_x[(i % 256) as int] ^ self.perm_y[(j % 256) as int]
            ^ self.perm_z[(k % 256) as int]) as int]
    }

    /// The gradients of the eight corners of the cell `(i, j, k)`, the corner
    /// `(di, dj, dk)` at position `4 di + 2 dj + dk`.
    pub open spec fn spec_cell(&self, i: u64, j: u64, k: u64) -> Seq<Vec3> {
        seq![
            self.spec_gradient(i, j, k),
            self.spec_gradient(i, j, (k + 1) as u64),
            self.spec_gradient(i, (j + 1) as u64, k),
            self.spec_gradient(i, (j + 1) as u64, (k + 1) as u64),
            self.spec_gradient((i + 1) as u64, j, k),
            self.spec_gradient((i + 1) as u64, j, (k + 1) as u64),
            self.spec_gradient((i + 1) as u64, (j + 1) as u64, k),
            self.spec_gradient((i + 1) as u64, (j + 1) as u64, (k + 1) as u64),
        ]
    }

    /// The noise at `p`: the gradient interpolation over the cell of `p`, at
    /// the fractional parts of its coordinates.
    pub open spec fn spec_noise(&self, p: &Point3) -> Fixed {
        spec_perlin_interp(
            self.spec_cell(lattice(p.0), lattice(p.1), lattice(p.2)),
            p.0.sub(p.0.floor()),
            p.1.sub(p.1.floor()),
            p.2.sub(p.2.floor()),
        )
    }

    /// The sum `acc + weight noise(p) + weight/2 noise(2 p) + ...` over
    /// `depth` octaves, added from the left.
    pub open spec fn spec_octaves(&self, acc: Fixed, p: Point3, weight: Fixed, depth: int) -> Fixed
        decreases depth,
    {
        if depth <= 0 {
            acc
        } else {
            self.spec_octaves(
                acc.add(weight.mul(self.spec_noise(&p))),
                p.scale(Fixed::from_int(2)),
                weight.mul(Fixed::from_ratio(1, 2)),
                depth - 1,
            )
        }
    }

    /// The turbulence at `p`: the magnitude of the sum of `depth` octaves of
    /// noise, each at twice the frequency and half the weight of the one before.
    pub open spec fn spec_turbulence(&self, p: &Point3, depth: i32) -> Fixed {
        self.spec_octaves(Fixed::from_int(0), *p, Fixed::from_int(1), depth as int).abs()
    }

    /// Whether `gradient` is a vector that a gradient table may hold: a point
    /// of the cube `[-1, 1)³` over its length.
    pub open spec fn is_gradient(gradient: Vec3) -> bool {
        exists|u: Vec3|
            u.is_unit_cube() && gradient == spec_normalize(
                &#[trigger] Vec3::spec_in_range(
                    Fixed::from_int(1).neg(),
                    Fixed::from_int(1),
                    u,
                ),
            )
    }

    /// A noise source with random unit gradients ([`Perlin::is_gradient`]) and
    /// three shuffled permutation tables ([`Perlin::is_shuffled`]).
    pub fn new() -> (r: Perlin)
        ensures
            r.is_shuffled(),
            forall|i: int| 0 <= i < 256 ==> Perlin::is_gradient(#[trigger] r.rand_vec@[i]),
    {
        let mut rand_vec: [Vec3; 256] = [Vec3::black(); 256];
        let mut at: usize = 0;
        while at < 256
            invariant
                at <= 256,
                forall|i: int| 0 <= i < at ==> Perlin::is_gradient(#[trigger] rand_vec@[i]),
            decreases 256 - at,
        {
            let point = Vec3::random_range(Fixed::from_int(-1), Fixed::from_int(1));
            rand_vec[at] = normalize(&point);
            at = at + 1;
        }
        let perm_x = Perlin::perlin_generate_perm();
        let perm_y = Perlin::perlin_generate_perm();
        let perm_z = Perlin::perlin_generate_perm();
        Perlin { perm_x, perm_y, perm_z, rand_vec }
    }

    /// The gradient of the lattice point `(i, j, k)`.
    #[verifier::when_used_as_spec(spec_gradient)]
    pub fn gradient(&self, i: u64, j: u64, k: u64) -> (r: Vec3)
        ensures
            r == self.spec_gradient(i, j, k),
    {
        let x: u8 = self.perm_x[(i % 256) as usize];
        let y: u8 = self.perm_y[(j % 256) as usize];
        let z: u8 = self.perm_z[(k % 256) as usize];
        self.rand_vec[(x ^ y ^ z) as usize]
    }

    /// The noise at `p`.
    #[verifier::when_used_as_spec(spec_noise)]
    pub fn noise(&self, p: &Point3) -> (r: Fixed)
        ensures
            r == self.spec_noise(p),
    {
        let u = p.0.sub(p.0.floor());
        let v = p.1.sub(p.1.floor());
        let w = p.2.sub(p.2.floor());
        let i: u64 = lattice(p.0);
        let j: u64 = lattice(p.1);
        let k: u64 = lattice(p.2);
        let c: [Vec3; 8] = [
            self.gradient(i, j, k),
            self.gradient(i, j, k + 1),
            self.gradient(i, j + 1, k),
            self.gradient(i, j + 1, k + 1),
            self.gradient(i + 1, j, k),
            self.gradient(i + 1, j, k + 1),
            self.gradient(i + 1, j + 1, k),
            self.gradient(i + 1, j + 1, k + 1),
        ];
        assert(c@ =~= self.spec_cell(i, j, k));
        perlin_interp(&c, u, v, w)
    }

    /// The turbulence at `p` over `depth` octaves.
    #[verifier::when_used_as_spec(spec_turbulence)]
    pub fn turbulence(&self, p: &Point3, depth: i32) -> (r: Fixed)
        ensures
            r == self.spec_turbulence(p, depth),
    {
        let mut acc = Fixed::from_int(0);
        let mut temp_p = *p;
        let mut weight = Fixed::from_int(1);
        let mut octave: i32 = 0;
        while octave < depth
            invariant
                0 <= octave,
                octave <= depth || depth < 0,
                self.spec_octaves(acc, temp_p, weight, depth - octave) == self.spec_octaves(
                    Fixed::from_int(0),
                    *p,
                    Fixed::from_int(1),
                    depth as int,
                ),
            decreases depth - octave,
        {
            acc = acc.add(weight.mul(self.noise(&temp_p)));
            weight = weight.mul(Fixed::from_ratio(1, 2));
            temp_p = temp_p.scale(Fixed::from_int(2));
            octave = octave + 1;
        }
        acc.abs()
    }

    /// A shuffled table of the bytes 0 to 255.
    pub fn perlin_generate_perm() -> (p: [u8; 256])
        ensures
            p@.to_multiset() == identity_table().to_multiset(),
    {
        let mut p: [u8; 256] = [0u8; 256];
        let mut at: usize = 0;
        while at < 256
            invariant
                at <= 256,
                forall|i: int| 0 <= i < at ==> p@[i] == i as u8,
            decreases 256 - at,
        {
            p[at] = at as u8;
            at = at + 1;
        }
        assert(p@ =~= identity_table());
        permute(&mut p);
        p
    }
}

} // verus!
