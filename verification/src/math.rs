//! Scalar helpers, random draws and three-component vectors.

use vstd::prelude::*;
use vstd::std_specs::cmp::PartialOrdSpec;
use core::cmp::Ordering;
use crate::fixed::{Fixed, SCALE};
use crate::trig::{HALF_RAW, TWO_PI_RAW};

verus! {

/// The numerator of the fixed-point number nearest to pi.
pub const PI_RAW: i64 = 52_707_179;

/// The fixed-point number nearest to pi.
pub open spec fn spec_pi() -> Fixed {
    Fixed { raw: PI_RAW }
}

/// The fixed-point number nearest to pi.
#[verifier::when_used_as_spec(spec_pi)]
pub fn pi() -> (r: Fixed)
    ensures
        r == spec_pi(),
{
    Fixed { raw: PI_RAW }
}

/// An angle in radians, from one in degrees: `degrees * pi / 180`.
pub open spec fn spec_degrees_to_radians(degrees: Fixed) -> Fixed {
    degrees.mul(pi()).div(Fixed::from_int(180))
}

/// An angle in radians, from one in degrees: `degrees * pi / 180`.
#[verifier::when_used_as_spec(spec_degrees_to_radians)]
pub fn degrees_to_radians(degrees: Fixed) -> (r: Fixed)
    ensures
        r == spec_degrees_to_radians(degrees),
{
    degrees.mul(pi()).div(Fixed::from_int(180))
}

/// Whether `u` lies in the half-open unit interval `[0, 1)`.
pub open spec fn is_unit(u: Fixed) -> bool {
    0 <= u.raw < SCALE
}

/// Sixty-four bits from `rand::random`, the thread-local generator of the
/// `rand` crate. Nothing is claimed of the bits.
#[verifier::external_body]
fn random_bits() -> (bits: u64) {
    rand::random::<u64>()
}

/// The number in `[0, 1)` whose fraction is the top 24 of the 64 bits.
pub open spec fn spec_unit_from_bits(bits: u64) -> Fixed {
    Fixed { raw: (bits / 0x100_0000_0000) as i64 }
}

/// The number in `[0, 1)` whose fraction is the top 24 of the 64 bits.
#[verifier::when_used_as_spec(spec_unit_from_bits)]
pub fn unit_from_bits(bits: u64) -> (r: Fixed)
    ensures
        r == spec_unit_from_bits(bits),
        is_unit(r),
{
    Fixed { raw: (bits / 0x100_0000_0000) as i64 }
}

/// A random number in `[0, 1)`.
pub fn random_double() -> (r: Fixed)
    ensures
        is_unit(r),
{
    unit_from_bits(random_bits())
}

/// The point of `[min, max)` that lies the fraction `u` of the way from `min`
/// to `max`: `min + (max - min) * u`.
pub open spec fn spec_lerp(min: Fixed, max: Fixed, u: Fixed) -> Fixed {
    min.add(max.sub(min).mul(u))
}

/// The point of `[min, max)` that lies the fraction `u` of the way from `min`
/// to `max`: `min + (max - min) * u`.
#[verifier::when_used_as_spec(spec_lerp)]
pub fn lerp(min: Fixed, max: Fixed, u: Fixed) -> (r: Fixed)
    ensures
        r == spec_lerp(min, max, u),
{
    min.add(max.sub(min).mul(u))
}

/// With `min <= max` and a fraction in `[0, 1)`, [`lerp`] stays within `[min, max]`.
pub proof fn lemma_lerp_between(min: Fixed, max: Fixed, u: Fixed)
    requires
        min.raw <= max.raw,
        is_unit(u),
    ensures
        min.raw <= lerp(min, max, u).raw <= max.raw,
{
    let d = max.sub(min).raw as int;
    let w = u.raw as int;
    assert(0 <= (d * w) / (SCALE as int) <= d) by (nonlinear_arith)
        requires
            0 <= d,
            0 <= w < SCALE,
            SCALE == 16_777_216,
    ;
}

/// Half of the way from minus one to one lies zero.
pub proof fn lemma_lerp_at_one_half()
    ensures
        is_unit(Fixed { raw: HALF_RAW }),
        lerp(Fixed::from_int(1).neg(), Fixed::from_int(1), Fixed { raw: HALF_RAW }).raw == 0,
{
    assert((2 * SCALE * HALF_RAW) / (SCALE as int) == SCALE) by (nonlinear_arith)
        requires
            SCALE == 16_777_216,
            HALF_RAW == 8_388_608,
    ;
}

/// A random number in `[min, max)`: [`lerp`] at a random fraction.
pub fn random_range_double(min: Fixed, max: Fixed) -> (r: Fixed)
    ensures
        exists|u: Fixed| is_unit(u) && r == #[trigger] lerp(min, max, u),
{
    let u = random_double();
    lerp(min, max, u)
}

/// The whole number of `[min, max]` picked by the bits: `min + bits mod (max - min + 1)`.
pub open spec fn spec_int_from_bits(min: i32, max: i32, bits: u64) -> i32 {
    (min + (bits as int) % (max - min + 1)) as i32
}

/// The whole number of `[min, max]` picked by the bits: `min + bits mod (max - min + 1)`.
#[verifier::when_used_as_spec(spec_int_from_bits)]
pub fn int_from_bits(min: i32, max: i32, bits: u64) -> (r: i32)
    requires
        min <= max,
    ensures
        r == spec_int_from_bits(min, max, bits),
        min <= r <= max,
{
    let span: u64 = ((max as i64) - (min as i64) + 1) as u64;
    ((min as i64) + ((bits % span) as i64)) as i32
}

/// A random whole number in `[min, max]`, both ends included.
pub fn random_range_int(min: i32, max: i32) -> (r: i32)
    requires
        min <= max,
    ensures
        min <= r <= max,
{
    int_from_bits(min, max, random_bits())
}

/// `input` pinned to `[min, max]`: `max` where `input` is above it, else `min`
/// where `input` is below it, else `input` itself.
pub fn clamp<T: PartialOrd>(input: T, min: T, max: T) -> (r: T)
    ensures
        T::obeys_partial_cmp_spec() ==> r == (if input.partial_cmp_spec(&max) == Some(
            Ordering::Greater,
        ) {
            max
        } else if input.partial_cmp_spec(&min) == Some(Ordering::Less) {
            min
        } else {
            input
        }),
{
    if input > max {
        return max;
    } else if input < min {
        return min;
    }
    input
}

/// What [`clamp`] gives on fixed-point numbers.
pub open spec fn spec_clamp(input: Fixed, min: Fixed, max: Fixed) -> Fixed {
    if input.raw > max.raw {
        max
    } else if input.raw < min.raw {
        min
    } else {
        input
    }
}

/// On fixed-point numbers [`clamp`] is [`spec_clamp`], and with `min <= max`
/// the result lies between the two.
pub proof fn lemma_clamp_fixed(input: Fixed, min: Fixed, max: Fixed)
    ensures
        spec_clamp(input, min, max) == (if input.partial_cmp_spec(&max) == Some(
            Ordering::Greater,
        ) {
            max
        } else if input.partial_cmp_spec(&min) == Some(Ordering::Less) {
            min
        } else {
            input
        }),
        min.raw <= max.raw ==> min.raw <= spec_clamp(input, min, max).raw <= max.raw,
{
}

/// A vector of three fixed-point components: a position, a direction or a
/// colour (red, green, blue).
#[derive(Clone, Copy, Debug, PartialEq, Eq, Structural)]
pub struct Vec3(pub Fixed, pub Fixed, pub Fixed);

/// A colour: linear red, green and blue.
pub type Color = Vec3;

/// A position in space.
pub type Point3 = Vec3;

impl Default for Vec3 {
    fn default() -> (r: Vec3)
        ensures
            r == Vec3::spec_zero(),
    {
        Vec3(Fixed { raw: 0 }, Fixed { raw: 0 }, Fixed { raw: 0 })
    }
}

impl Vec3 {
    /// The vector of three zeros.
    pub open spec fn spec_zero() -> Vec3 {
        Vec3(Fixed { raw: 0 }, Fixed { raw: 0 }, Fixed { raw: 0 })
    }

    /// The vector of three ones.
    pub open spec fn spec_white() -> Vec3 {
        Vec3(Fixed { raw: SCALE }, Fixed { raw: SCALE }, Fixed { raw: SCALE })
    }

    /// The sum, component by component.
    pub open spec fn spec_add(self, v: Vec3) -> Vec3 {
        Vec3(self.0.add(v.0), self.1.add(v.1), self.2.add(v.2))
    }

    /// The difference, component by component.
    pub open spec fn spec_sub(self, v: Vec3) -> Vec3 {
        Vec3(self.0.sub(v.0), self.1.sub(v.1), self.2.sub(v.2))
    }

    /// The product, component by component.
    pub open spec fn spec_mul(self, v: Vec3) -> Vec3 {
        Vec3(self.0.mul(v.0), self.1.mul(v.1), self.2.mul(v.2))
    }

    /// Each component times `t`.
    pub open spec fn spec_scale(self, t: Fixed) -> Vec3 {
        Vec3(self.0.mul(t), self.1.mul(t), self.2.mul(t))
    }

    /// Each component over `t`.
    pub open spec fn spec_div(self, t: Fixed) -> Vec3 {
        Vec3(self.0.div(t), self.1.div(t), self.2.div(t))
    }

    /// Each component negated.
    pub open spec fn spec_neg(self) -> Vec3 {
        Vec3(self.0.neg(), self.1.neg(), self.2.neg())
    }

    /// The sum of the squares of the components.
    pub open spec fn spec_length_squared(&self) -> Fixed {
        self.0.mul(self.0).add(self.1.mul(self.1)).add(self.2.mul(self.2))
    }

    /// The square root of [`Vec3::spec_length_squared`].
    pub open spec fn spec_length(&self) -> Fixed {
        self.spec_length_squared().sqrt()
    }

    /// The component on axis 0, 1 or 2.
    pub open spec fn spec_index(&self, axis: i32) -> Fixed {
        if axis == 0 {
            self.0
        } else if axis == 1 {
            self.1
        } else {
            self.2
        }
    }

    /// The vector with the component on `axis` replaced by `value`.
    pub open spec fn spec_with(self, axis: i32, value: Fixed) -> Vec3 {
        if axis == 0 {
            Vec3(value, self.1, self.2)
        } else if axis == 1 {
            Vec3(self.0, value, self.2)
        } else {
            Vec3(self.0, self.1, value)
        }
    }

    /// Whether each component lies in `[0, 1)`.
    pub open spec fn is_unit_cube(self) -> bool {
        is_unit(self.0) && is_unit(self.1) && is_unit(self.2)
    }

    /// The point of the cube `[min, max)³` at the fractions `u`.
    pub open spec fn spec_in_range(min: Fixed, max: Fixed, u: Vec3) -> Vec3 {
        Vec3(lerp(min, max, u.0), lerp(min, max, u.1), lerp(min, max, u.2))
    }

    /// The point of the square `[min, max)²` of the plane `z = 0` at the
    /// fractions `u` and `v`.
    pub open spec fn spec_in_square(min: Fixed, max: Fixed, u: Fixed, v: Fixed) -> Vec3 {
        Vec3(lerp(min, max, u), lerp(min, max, v), Fixed { raw: 0 })
    }

    /// Whether the vector lies strictly inside the unit sphere.
    pub open spec fn in_unit_sphere(self) -> bool {
        self.spec_length_squared().raw < SCALE
    }

    /// Whether the vector is a point that is drawn inside the unit sphere: a
    /// point of the cube `[-1, 1)³` at three fractions of `[0, 1)`
    /// ([`Vec3::spec_in_range`]) that lies strictly inside the sphere.
    pub open spec fn is_sphere_draw(self) -> bool {
        self.in_unit_sphere() && exists|u: Vec3|
            u.is_unit_cube() && self == #[trigger] Vec3::spec_in_range(
                Fixed::from_int(1).neg(),
                Fixed::from_int(1),
                u,
            )
    }

    /// Whether the vector is a point that is drawn inside the unit disk: a
    /// point of the square `[-1, 1)²` of the plane `z = 0` at two fractions of
    /// `[0, 1)` ([`Vec3::spec_in_square`]) that lies strictly inside the disk.
    pub open spec fn is_disk_draw(self) -> bool {
        self.in_unit_sphere() && exists|u: Fixed, v: Fixed|
            is_unit(u) && is_unit(v) && self == #[trigger] Vec3::spec_in_square(
                Fixed::from_int(1).neg(),
                Fixed::from_int(1),
                u,
                v,
            )
    }

    /// Whether the vector is [`Vec3::spec_on_unit_sphere`] at a longitude in
    /// `[0, 2 pi]` and a height in `[-1, 1]`.
    pub open spec fn is_sphere_point(self) -> bool {
        exists|a: Fixed, z: Fixed|
            0 <= a.raw <= TWO_PI_RAW && -SCALE <= z.raw <= SCALE && self
                == #[trigger] Vec3::spec_on_unit_sphere(a, z)
    }

    /// The point of the unit sphere at height `z` and longitude `angle`:
    /// `(r cos angle, r sin angle, z)` with `r = sqrt(1 - z²)`.
    pub open spec fn spec_on_unit_sphere(angle: Fixed, z: Fixed) -> Vec3 {
        let r = Fixed::from_int(1).sub(z.mul(z)).sqrt();
        Vec3(r.mul(angle.cos()), r.mul(angle.sin()), z)
    }

    /// `p` where it points to the side of `normal`, else `-p`.
    pub open spec fn spec_towards(p: Vec3, normal: Vec3) -> Vec3 {
        if spec_dot(&p, &normal).raw > 0 {
            p
        } else {
            p.spec_neg()
        }
    }

    /// A vector from its three components.
    pub fn new(r: Fixed, g: Fixed, b: Fixed) -> (v: Vec3)
        ensures
            v == Vec3(r, g, b),
    {
        Vec3(r, g, b)
    }

    /// A vector from its three components.
    pub fn from(e0: Fixed, e1: Fixed, e2: Fixed) -> (v: Vec3)
        ensures
            v == Vec3(e0, e1, e2),
    {
        Vec3(e0, e1, e2)
    }

    /// Black: no light.
    #[verifier::when_used_as_spec(spec_zero)]
    pub fn black() -> (v: Color)
        ensures
            v == Vec3::spec_zero(),
    {
        Vec3(Fixed { raw: 0 }, Fixed { raw: 0 }, Fixed { raw: 0 })
    }

    /// White: one in each channel.
    #[verifier::when_used_as_spec(spec_white)]
    pub fn white() -> (v: Color)
        ensures
            v == Vec3::spec_white(),
    {
        Vec3(Fixed { raw: SCALE }, Fixed { raw: SCALE }, Fixed { raw: SCALE })
    }

    /// Cyan: the colour of a texture without pixels.
    pub fn cyan() -> (v: Color)
        ensures
            v == Vec3(Fixed { raw: 0 }, Fixed { raw: SCALE }, Fixed { raw: SCALE }),
    {
        Vec3(Fixed { raw: 0 }, Fixed { raw: SCALE }, Fixed { raw: SCALE })
    }

    /// The unit vector along the y axis.
    pub fn up() -> (v: Vec3)
        ensures
            v == Vec3(Fixed { raw: 0 }, Fixed { raw: SCALE }, Fixed { raw: 0 }),
    {
        Vec3(Fixed { raw: 0 }, Fixed { raw: SCALE }, Fixed { raw: 0 })
    }

    /// The first component.
    pub fn x(&self) -> (r: Fixed)
        ensures
            r == self.0,
    {
        self.0
    }

    /// The second component.
    pub fn y(&self) -> (r: Fixed)
        ensures
            r == self.1,
    {
        self.1
    }

    /// The third component.
    pub fn z(&self) -> (r: Fixed)
        ensures
            r == self.2,
    {
        self.2
    }

    /// The Euclidean length.
    #[verifier::when_used_as_spec(spec_length)]
    pub fn length(&self) -> (r: Fixed)
        ensures
            r == self.spec_length(),
    {
        self.length_squared().sqrt()
    }

    /// The square of the Euclidean length.
    #[verifier::when_used_as_spec(spec_length_squared)]
    pub fn length_squared(&self) -> (r: Fixed)
        ensures
            r == self.spec_length_squared(),
    {
        self.0.mul(self.0).add(self.1.mul(self.1)).add(self.2.mul(self.2))
    }

    /// The sum, component by component.
    #[verifier::when_used_as_spec(spec_add)]
    pub fn add(self, v: Vec3) -> (r: Vec3)
        ensures
            r == self.spec_add(v),
    {
        Vec3(self.0.add(v.0), self.1.add(v.1), self.2.add(v.2))
    }

    /// The difference, component by component.
    #[verifier::when_used_as_spec(spec_sub)]
    pub fn sub(self, v: Vec3) -> (r: Vec3)
        ensures
            r == self.spec_sub(v),
    {
        Vec3(self.0.sub(v.0), self.1.sub(v.1), self.2.sub(v.2))
    }

    /// The product, component by component.
    #[verifier::when_used_as_spec(spec_mul)]
    pub fn mul(self, v: Vec3) -> (r: Vec3)
        ensures
            r == self.spec_mul(v),
    {
        Vec3(self.0.mul(v.0), self.1.mul(v.1), self.2.mul(v.2))
    }

    /// Each component times `t`.
    #[verifier::when_used_as_spec(spec_scale)]
    pub fn scale(self, t: Fixed) -> (r: Vec3)
        ensures
            r == self.spec_scale(t),
    {
        Vec3(self.0.mul(t), self.1.mul(t), self.2.mul(t))
    }

    /// Each component over `t`.
    #[verifier::when_used_as_spec(spec_div)]
    pub fn div(self, t: Fixed) -> (r: Vec3)
        ensures
            r == self.spec_div(t),
    {
        Vec3(self.0.div(t), self.1.div(t), self.2.div(t))
    }

    /// Each component negated.
    #[verifier::when_used_as_spec(spec_neg)]
    pub fn neg(self) -> (r: Vec3)
        ensures
            r == self.spec_neg(),
    {
        Vec3(self.0.neg(), self.1.neg(), self.2.neg())
    }

    /// The component on `axis`: 0 for x, 1 for y, 2 for z.
    #[verifier::when_used_as_spec(spec_index)]
    pub fn index(&self, axis: i32) -> (r: Fixed)
        requires
            0 <= axis < 3,
        ensures
            r == self.spec_index(axis),
    {
        if axis == 0 {
            self.0
        } else if axis == 1 {
            self.1
        } else {
            self.2
        }
    }

    /// Replaces the component on `axis`: 0 for x, 1 for y, 2 for z.
    pub fn index_mut(&mut self, axis: i32, value: Fixed)
        requires
            0 <= axis < 3,
        ensures
            *final(self) == old(self).spec_with(axis, value),
    {
        if axis == 0 {
            self.0 = value;
        } else if axis == 1 {
            self.1 = value;
        } else {
            self.2 = value;
        }
    }

    /// The point of the cube `[min, max)³` at the fractions `u`.
    #[verifier::when_used_as_spec(spec_in_range)]
    pub fn in_range(min: Fixed, max: Fixed, u: Vec3) -> (r: Vec3)
        ensures
            r == Vec3::spec_in_range(min, max, u),
    {
        Vec3(lerp(min, max, u.0), lerp(min, max, u.1), lerp(min, max, u.2))
    }

    /// The point of the unit sphere at height `z` and longitude `angle`.
    #[verifier::when_used_as_spec(spec_on_unit_sphere)]
    pub fn on_unit_sphere(angle: Fixed, z: Fixed) -> (r: Vec3)
        ensures
            r == Vec3::spec_on_unit_sphere(angle, z),
    {
        let r = Fixed::from_int(1).sub(z.mul(z)).sqrt();
        Vec3(r.mul(angle.cos()), r.mul(angle.sin()), z)
    }

    /// `p` where it points to the side of `normal`, else `-p`.
    #[verifier::when_used_as_spec(spec_towards)]
    pub fn towards(p: Vec3, normal: Vec3) -> (r: Vec3)
        ensures
            r == Vec3::spec_towards(p, normal),
    {
        if dot(&p, &normal).raw > 0 {
            p
        } else {
            p.neg()
        }
    }

    /// A random vector with each component in `[0, 1)`.
    pub fn random() -> (r: Vec3)
        ensures
            r.is_unit_cube(),
    {
        Vec3(random_double(), random_double(), random_double())
    }

    /// A random vector with each component in `[min, max)`: [`Vec3::in_range`]
    /// at three random fractions.
    pub fn random_range(min: Fixed, max: Fixed) -> (r: Vec3)
        ensures
            exists|u: Vec3| u.is_unit_cube() && r == #[trigger] Vec3::spec_in_range(min, max, u),
    {
        let u = Vec3::random();
        Vec3::in_range(min, max, u)
    }

    /// A random point strictly inside the unit sphere ([`Vec3::is_sphere_draw`]).
    /// Points of the cube `[-1, 1)³` are drawn until one lies inside; after 64
    /// misses in a row the centre is returned, which is the point of the cube
    /// at the fractions one half.
    pub fn random_in_unit_sphere() -> (r: Vec3)
        ensures
            r.is_sphere_draw(),
            r.in_unit_sphere(),
    {
        let mut tries: u32 = 0;
        while tries < 64
            invariant
                tries <= 64,
            decreases 64 - tries,
        {
            let low = Fixed::from_int(-1);
            let p = Vec3::random_range(low, Fixed::from_int(1));
            if p.length_squared().raw < SCALE {
                assert(low == Fixed::from_int(1).neg());
                return p;
            }
            tries = tries + 1;
        }
        proof {
            let half = Fixed { raw: HALF_RAW };
            let middle = Vec3(half, half, half);
            lemma_lerp_at_one_half();
            assert(Vec3::spec_zero() == Vec3::spec_in_range(
                Fixed::from_int(1).neg(),
                Fixed::from_int(1),
                middle,
            ));
        }
        Vec3::black()
    }

    /// A random point strictly inside the unit disk of the plane `z = 0`
    /// ([`Vec3::is_disk_draw`]). Points of the square `[-1, 1)²` are drawn
    /// until one lies inside; after 64 misses in a row the centre is returned,
    /// which is the point of the square at the fractions one half.
    pub fn random_in_unit_disk() -> (r: Vec3)
        ensures
            r.is_disk_draw(),
            r.in_unit_sphere(),
            r.2.raw == 0,
    {
        let mut tries: u32 = 0;
        while tries < 64
            invariant
                tries <= 64,
            decreases 64 - tries,
        {
            let low = Fixed::from_int(-1);
            let high = Fixed::from_int(1);
            let x = random_range_double(low, high);
            let y = random_range_double(low, high);
            let p = Vec3(x, y, Fixed { raw: 0 });
            if p.length_squared().raw < SCALE {
                proof {
                    let u = choose|u: Fixed| is_unit(u) && x == #[trigger] lerp(low, high, u);
                    let v = choose|v: Fixed| is_unit(v) && y == #[trigger] lerp(low, high, v);
                    assert(p == Vec3::spec_in_square(
                        Fixed::from_int(1).neg(),
                        Fixed::from_int(1),
                        u,
                        v,
                    ));
                }
                return p;
            }
            tries = tries + 1;
        }
        proof {
            let half = Fixed { raw: HALF_RAW };
            lemma_lerp_at_one_half();
            assert(Vec3::spec_zero() == Vec3::spec_in_square(
                Fixed::from_int(1).neg(),
                Fixed::from_int(1),
                half,
                half,
            ));
        }
        Vec3::black()
    }

    /// A random point of the unit sphere: [`Vec3::on_unit_sphere`] at a random
    /// longitude in `[0, 2 pi)` and a random height in `[-1, 1)`.
    pub fn random_unit_vector() -> (r: Vec3)
        ensures
            r.is_sphere_point(),
    {
        let ua = random_double();
        let uz = random_double();
        let low = Fixed::from_int(-1);
        let high = Fixed::from_int(1);
        let a = lerp(Fixed { raw: 0 }, Fixed { raw: TWO_PI_RAW }, ua);
        let z = lerp(low, high, uz);
        proof {
            lemma_lerp_between(Fixed { raw: 0 }, Fixed { raw: TWO_PI_RAW }, ua);
            lemma_lerp_between(low, high, uz);
        }
        Vec3::on_unit_sphere(a, z)
    }

    /// A random point inside the unit sphere on the side of `normal`:
    /// [`Vec3::towards`] at a random point inside the unit sphere.
    pub fn random_in_hemisphere(normal: &Vec3) -> (r: Vec3)
        ensures
            exists|p: Vec3| p.in_unit_sphere() && r == #[trigger] Vec3::spec_towards(p, *normal),
    {
        let p = Vec3::random_in_unit_sphere();
        Vec3::towards(p, *normal)
    }
}

/// The sum of the products of the components.
pub open spec fn spec_dot(u: &Vec3, v: &Vec3) -> Fixed {
    u.0.mul(v.0).add(u.1.mul(v.1)).add(u.2.mul(v.2))
}

/// The vector product.
pub open spec fn spec_cross(u: &Vec3, v: &Vec3) -> Vec3 {
    Vec3(
        u.1.mul(v.2).sub(u.2.mul(v.1)),
        u.2.mul(v.0).sub(u.0.mul(v.2)),
        u.0.mul(v.1).sub(u.1.mul(v.0)),
    )
}

/// The vector over its length.
pub open spec fn spec_normalize(v: &Vec3) -> Vec3 {
    v.spec_div(v.spec_length())
}

/// The mirror image of `v` at a surface with normal `n`: `v - 2 (v . n) n`.
pub open spec fn spec_reflect(v: &Vec3, n: &Vec3) -> Vec3 {
    v.spec_sub(n.spec_scale(spec_dot(v, n)).spec_scale(Fixed::from_int(2)))
}

/// The direction of `v` after it crosses a surface with normal `n` at the
/// ratio `etai_over_etat` of refractive indices: the part across the normal,
/// `(v + cos n) * ratio` with `cos = -v . n`, plus the part along it,
/// `-sqrt(|1 - |across|²|) n`.
pub open spec fn spec_refract(v: &Vec3, n: &Vec3, etai_over_etat: Fixed) -> Vec3 {
    let cos_theta = spec_dot(&v.spec_neg(), n);
    let r_out_perp = v.spec_add(n.spec_scale(cos_theta)).spec_scale(etai_over_etat);
    let r_out_parallel = n.spec_scale(
        Fixed::from_int(1).sub(r_out_perp.spec_length_squared()).abs().sqrt().neg(),
    );
    r_out_perp.spec_add(r_out_parallel)
}

/// The vector over its length.
#[verifier::when_used_as_spec(spec_normalize)]
pub fn normalize(v: &Vec3) -> (r: Vec3)
    ensures
        r == spec_normalize(v),
{
    v.div(v.length())
}

/// The scalar product.
#[verifier::when_used_as_spec(spec_dot)]
pub fn dot(u: &Vec3, v: &Vec3) -> (r: Fixed)
    ensures
        r == spec_dot(u, v),
{
    u.0.mul(v.0).add(u.1.mul(v.1)).add(u.2.mul(v.2))
}

/// The vector product.
#[verifier::when_used_as_spec(spec_cross)]
pub fn cross(u: &Vec3, v: &Vec3) -> (r: Vec3)
    ensures
        r == spec_cross(u, v),
{
    Vec3(
        u.1.mul(v.2).sub(u.2.mul(v.1)),
        u.2.mul(v.0).sub(u.0.mul(v.2)),
        u.0.mul(v.1).sub(u.1.mul(v.0)),
    )
}

/// The mirror image of `v` at a surface with normal `n`.
#[verifier::when_used_as_spec(spec_reflect)]
pub fn reflect(v: &Vec3, n: &Vec3) -> (r: Vec3)
    ensures
        r == spec_reflect(v, n),
{
    v.sub(n.scale(dot(v, n)).scale(Fixed::from_int(2)))
}

/// The direction of `v` after it crosses a surface with normal `n` at the
/// ratio `etai_over_etat` of refractive indices.
#[verifier::when_used_as_spec(spec_refract)]
pub fn refract(v: &Vec3, n: &Vec3, etai_over_etat: Fixed) -> (r: Vec3)
    ensures
        r == spec_refract(v, n, etai_over_etat),
{
    let cos_theta = dot(&v.neg(), n);
    let r_out_perp = v.add(n.scale(cos_theta)).scale(etai_over_etat);
    let r_out_parallel = n.scale(
        Fixed::from_int(1).sub(r_out_perp.length_squared()).abs().sqrt().neg(),
    );
    r_out_perp.add(r_out_parallel)
}

/// A component of a vector of length one lies within `[-1, 1]`.
proof fn lemma_unit_component(n: Vec3)
    requires
        n.spec_length_squared().raw == SCALE,
    ensures
        -SCALE <= n.0.raw <= SCALE,
        -SCALE <= n.1.raw <= SCALE,
        -SCALE <= n.2.raw <= SCALE,
{
    lemma_square_bound(n.0.raw as int);
    lemma_square_bound(n.1.raw as int);
    lemma_square_bound(n.2.raw as int);
}

/// A square over the scale is not negative, and not above the scale only for
/// a number within the scale.
proof fn lemma_square_bound(a: int)
    ensures
        0 <= (a * a) / (SCALE as int),
        (a * a) / (SCALE as int) <= SCALE ==> -SCALE <= a <= SCALE,
{
    let s = SCALE as int;
    assert(0 <= a * a) by (nonlinear_arith);
    vstd::arithmetic::div_mod::lemma_div_pos_is_pos(a * a, s);
    if a > s || a < -s {
        assert(a * a >= s * (s + 1)) by (nonlinear_arith)
            requires
                a >= s + 1 || a <= -s - 1,
                s > 0,
        ;
        vstd::arithmetic::div_mod::lemma_div_is_ordered(s * (s + 1), a * a, s);
        vstd::arithmetic::div_mod::lemma_div_multiples_vanish(s + 1, s);
    }
}

/// Times one a number stays as it is, and times minus one it is negated.
proof fn lemma_times_unit(a: Fixed)
    requires
        -SCALE <= a.raw <= SCALE,
    ensures
        a.mul(Fixed { raw: SCALE }) == a,
        a.mul(Fixed { raw: SCALE }.neg()) == a.neg(),
{
    let s = SCALE as int;
    let x = a.raw as int;
    assert(x * s == s * x && x * (-s) == s * (-x)) by (nonlinear_arith);
    vstd::arithmetic::div_mod::lemma_div_multiples_vanish(x, s);
    vstd::arithmetic::div_mod::lemma_div_multiples_vanish(-x, s);
}

/// A ray that meets a surface straight on goes straight on, whatever the
/// ratio of the refractive indices: against a normal of length one, the
/// refraction of the negated normal is the negated normal. Such a normal
/// negated twice is itself.
pub proof fn lemma_refract_straight_on(n: Vec3, etai_over_etat: Fixed)
    requires
        n.spec_length_squared().raw == SCALE,
    ensures
        spec_refract(&n.spec_neg(), &n, etai_over_etat) == n.spec_neg(),
        n.spec_neg().spec_neg() == n,
{
    let one = Fixed { raw: SCALE };
    let zero = Vec3::spec_zero();
    let v = n.spec_neg();
    lemma_unit_component(n);
    lemma_times_unit(n.0);
    lemma_times_unit(n.1);
    lemma_times_unit(n.2);
    assert(v.spec_neg() == n);
    let cos_theta = spec_dot(&v.spec_neg(), &n);
    assert(cos_theta == one);
    assert(n.spec_scale(cos_theta) == n);
    assert(v.spec_add(n) == zero);
    let across = v.spec_add(n.spec_scale(cos_theta)).spec_scale(etai_over_etat);
    assert(across == zero) by {
        assert((0 * etai_over_etat.raw) / (SCALE as int) == 0);
    }
    assert(across.spec_length_squared().raw == 0);
    let along = Fixed::from_int(1).sub(across.spec_length_squared()).abs().sqrt();
    assert(along == one) by {
        assert(crate::fixed::is_isqrt(SCALE * SCALE, SCALE as int)) by (nonlinear_arith);
        crate::fixed::lemma_isqrt_is(SCALE * SCALE, SCALE as int);
    }
    assert(n.spec_scale(along.neg()) == v);
    assert(zero.spec_add(v) == v);
}

} // verus!
