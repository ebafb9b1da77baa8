//! Signed fixed-point scalars with saturating arithmetic.
//!
//! A [`Fixed`] holds an `i64` numerator over the denominator [`SCALE`] (2^24),
//! so it resolves steps of about 6e-8 over a range of about ±5.5e11. Every
//! operation is total: a result that leaves the range is pinned to the nearest
//! end of it, and the two ends double as negative and positive infinity.
//! Products and quotients are rounded down (towards negative infinity).

use core::cmp::Ordering;
use vstd::prelude::*;
use vstd::arithmetic::div_mod::{lemma_fundamental_div_mod, lemma_fundamental_div_mod_converse};
use vstd::std_specs::cmp::PartialOrdSpecImpl;

verus! {

/// The numerator that stands for one: two to the 24th power.
pub const SCALE: i64 = 16_777_216;

/// `x` pinned to the range of `i64`.
pub open spec fn saturate(x: int) -> i64 {
    if x > i64::MAX {
        i64::MAX
    } else if x < i64::MIN {
        i64::MIN
    } else {
        x as i64
    }
}

/// The quotient `n / d` rounded down, for a divisor of either sign.
pub open spec fn floor_div(n: int, d: int) -> int
    recommends
        d != 0,
{
    if d > 0 {
        n / d
    } else {
        (-n) / (-d)
    }
}

/// Whether `r` is the integer square root of `n`: the square of `r` does not
/// exceed `n`, and the next square does.
pub open spec fn is_isqrt(n: int, r: int) -> bool {
    0 <= r && r * r <= n < (r + 1) * (r + 1)
}

/// The integer square root of `n`.
pub open spec fn isqrt(n: int) -> int
    recommends
        n >= 0,
{
    choose|r: int| is_isqrt(n, r)
}

/// Two candidates for the integer square root of one number are equal.
pub proof fn lemma_isqrt_unique(n: int, a: int, b: int)
    requires
        is_isqrt(n, a),
        is_isqrt(n, b),
    ensures
        a == b,
{
    if a < b {
        assert((a + 1) * (a + 1) <= b * b) by (nonlinear_arith)
            requires
                0 <= a,
                a + 1 <= b,
        ;
    } else if b < a {
        assert((b + 1) * (b + 1) <= a * a) by (nonlinear_arith)
            requires
                0 <= b,
                b + 1 <= a,
        ;
    }
}

/// A number between a square and the next square has that square's root.
pub proof fn lemma_isqrt_is(n: int, r: int)
    requires
        is_isqrt(n, r),
    ensures
        isqrt(n) == r,
{
    lemma_isqrt_unique(n, isqrt(n), r);
}

/// Rounding a negative quotient down, from the quotient of the magnitudes.
pub proof fn lemma_floor_of_negative(n: int, d: int)
    requires
        n < 0,
        d > 0,
    ensures
        (-n) % d == 0 ==> n / d == -((-n) / d),
        (-n) % d != 0 ==> n / d == -((-n) / d) - 1,
{
    let k = (-n) / d;
    let s = (-n) % d;
    lemma_fundamental_div_mod(-n, d);
    if s == 0 {
        assert(n == (-k) * d + 0) by (nonlinear_arith)
            requires
                -n == d * k + s,
                s == 0,
        ;
        lemma_fundamental_div_mod_converse(n, d, -k, 0);
    } else {
        assert(n == (-k - 1) * d + (d - s)) by (nonlinear_arith)
            requires
                -n == d * k + s,
        ;
        lemma_fundamental_div_mod_converse(n, d, -k - 1, d - s);
    }
}

/// Rounding down is monotone in the dividend, for a positive divisor.
pub proof fn lemma_floor_div_monotone(a: int, b: int, d: int)
    requires
        a <= b,
        d != 0,
    ensures
        d > 0 ==> floor_div(a, d) <= floor_div(b, d),
        d < 0 ==> floor_div(a, d) >= floor_div(b, d),
{
    if d > 0 {
        vstd::arithmetic::div_mod::lemma_div_is_ordered(a, b, d);
    } else {
        vstd::arithmetic::div_mod::lemma_div_is_ordered(-b, -a, -d);
    }
}

fn floor_div_wide(n: i128, d: i128) -> (q: i128)
    requires
        d > 0,
        n > i128::MIN,
    ensures
        q == n / d,
{
    let t: i128 = n / d;
    let m: i128 = n % d;
    proof {
        if n < 0 {
            lemma_floor_of_negative(n as int, d as int);
        }
    }
    if m < 0 {
        t - 1
    } else {
        t
    }
}

fn scale_up(raw: i64) -> (n: i128)
    ensures
        n == raw * SCALE,
        -0x80_0000_0000_0000_0000_0000 <= n < 0x80_0000_0000_0000_0000_0000,
{
    (raw as i128) * 16_777_216
}

fn saturate_wide(x: i128) -> (r: i64)
    ensures
        r == saturate(x as int),
{
    if x > i64::MAX as i128 {
        i64::MAX
    } else if x < i64::MIN as i128 {
        i64::MIN
    } else {
        x as i64
    }
}

fn isqrt_wide(n: u128) -> (r: u128)
    requires
        n < 0x1_0000_0000_0000_0000_0000_0000,
    ensures
        r == isqrt(n as int),
        r < 0x1_0000_0000_0000,
{
    let mut lo: u128 = 0;
    let mut hi: u128 = 0x1_0000_0000_0000;
    assert(0x1_0000_0000_0000int * 0x1_0000_0000_0000int == 0x1_0000_0000_0000_0000_0000_0000int);
    while hi - lo > 1
        invariant
            lo < hi <= 0x1_0000_0000_0000,
            lo * lo <= n < hi * hi,
        decreases hi - lo,
    {
        let mid: u128 = lo + (hi - lo) / 2;
        assert(mid * mid < 0x1_0000_0000_0000_0000_0000_0000) by (nonlinear_arith)
            requires
                0 <= mid < 0x1_0000_0000_0000,
        ;
        if mid * mid <= n {
            lo = mid;
        } else {
            hi = mid;
        }
    }
    proof {
        lemma_isqrt_is(n as int, lo as int);
    }
    lo
}

/// A fixed-point number: `raw / SCALE`.
#[derive(Clone, Copy, Debug, PartialEq, Eq, Structural)]
pub struct Fixed {
    pub raw: i64,
}

impl Fixed {
    /// The numerator of the sum, pinned to the range.
    pub open spec fn spec_add(self, rhs: Fixed) -> Fixed {
        Fixed { raw: saturate(self.raw + rhs.raw) }
    }

    /// The numerator of the difference, pinned to the range.
    pub open spec fn spec_sub(self, rhs: Fixed) -> Fixed {
        Fixed { raw: saturate(self.raw - rhs.raw) }
    }

    /// The negation; the lowest value negates to the highest.
    pub open spec fn spec_neg(self) -> Fixed {
        Fixed { raw: saturate(-self.raw) }
    }

    /// The magnitude.
    pub open spec fn spec_abs(self) -> Fixed {
        if self.raw < 0 {
            self.spec_neg()
        } else {
            self
        }
    }

    /// The product, rounded down and pinned to the range.
    pub open spec fn spec_mul(self, rhs: Fixed) -> Fixed {
        Fixed { raw: saturate((self.raw * rhs.raw) / (SCALE as int)) }
    }

    /// The quotient, rounded down and pinned to the range. A division by zero
    /// gives the end of the range on the dividend's side, and zero for 0 / 0.
    pub open spec fn spec_div(self, rhs: Fixed) -> Fixed {
        if rhs.raw == 0 {
            if self.raw > 0 {
                Fixed { raw: i64::MAX }
            } else if self.raw < 0 {
                Fixed { raw: i64::MIN }
            } else {
                Fixed { raw: 0 }
            }
        } else {
            Fixed { raw: saturate(floor_div(self.raw * SCALE, rhs.raw as int)) }
        }
    }

    /// The square root, rounded down; zero for a negative number.
    pub open spec fn spec_sqrt(self) -> Fixed {
        if self.raw <= 0 {
            Fixed { raw: 0 }
        } else {
            Fixed { raw: isqrt(self.raw * SCALE) as i64 }
        }
    }

    /// The largest whole number that is not above `self`, as an integer.
    pub open spec fn spec_floor_int(self) -> i64 {
        ((self.raw as int) / (SCALE as int)) as i64
    }

    /// The largest whole number that is not above `self`.
    pub open spec fn spec_floor(self) -> Fixed {
        Fixed { raw: (self.spec_floor_int() * SCALE) as i64 }
    }

    /// The smaller of the two.
    pub open spec fn spec_min(self, rhs: Fixed) -> Fixed {
        if self.raw <= rhs.raw {
            self
        } else {
            rhs
        }
    }

    /// The larger of the two.
    pub open spec fn spec_max(self, rhs: Fixed) -> Fixed {
        if self.raw >= rhs.raw {
            self
        } else {
            rhs
        }
    }

    /// The whole number `i`.
    pub open spec fn spec_from_int(i: i32) -> Fixed {
        Fixed { raw: (i * SCALE) as i64 }
    }

    /// The fraction `num / den`, rounded down.
    pub open spec fn spec_from_ratio(num: i64, den: i64) -> Fixed {
        Fixed { raw: num }.spec_div(Fixed { raw: den })
    }

    /// The number with the given numerator.
    pub fn from_raw(raw: i64) -> (r: Fixed)
        ensures
            r.raw == raw,
    {
        Fixed { raw }
    }

    /// The numerator.
    pub fn raw(&self) -> (r: i64)
        ensures
            r == self.raw,
    {
        self.raw
    }

    /// Zero.
    pub fn zero() -> (r: Fixed)
        ensures
            r.raw == 0,
    {
        Fixed { raw: 0 }
    }

    /// One.
    pub fn one() -> (r: Fixed)
        ensures
            r.raw == SCALE,
    {
        Fixed { raw: SCALE }
    }

    /// The upper end of the range, which stands for positive infinity.
    pub fn infinity() -> (r: Fixed)
        ensures
            r.raw == i64::MAX,
    {
        Fixed { raw: i64::MAX }
    }

    /// The lower end of the range, which stands for negative infinity.
    pub fn neg_infinity() -> (r: Fixed)
        ensures
            r.raw == i64::MIN,
    {
        Fixed { raw: i64::MIN }
    }

    /// The whole number `i`.
    #[verifier::when_used_as_spec(spec_from_int)]
    pub fn from_int(i: i32) -> (r: Fixed)
        ensures
            r == Fixed::spec_from_int(i),
            r.raw == i * SCALE,
    {
        Fixed { raw: (i as i64) * 16_777_216 }
    }

    /// The fraction `num / den`, rounded down; see [`Fixed::div`] for a zero `den`.
    #[verifier::when_used_as_spec(spec_from_ratio)]
    pub fn from_ratio(num: i64, den: i64) -> (r: Fixed)
        ensures
            r == Fixed::spec_from_ratio(num, den),
    {
        Fixed { raw: num }.div(Fixed { raw: den })
    }

    /// Saturating addition.
    #[verifier::when_used_as_spec(spec_add)]
    pub fn add(self, rhs: Fixed) -> (r: Fixed)
        ensures
            r == self.spec_add(rhs),
    {
        Fixed { raw: saturate_wide(self.raw as i128 + rhs.raw as i128) }
    }

    /// Saturating subtraction.
    #[verifier::when_used_as_spec(spec_sub)]
    pub fn sub(self, rhs: Fixed) -> (r: Fixed)
        ensures
            r == self.spec_sub(rhs),
    {
        Fixed { raw: saturate_wide(self.raw as i128 - rhs.raw as i128) }
    }

    /// Saturating negation.
    #[verifier::when_used_as_spec(spec_neg)]
    pub fn neg(self) -> (r: Fixed)
        ensures
            r == self.spec_neg(),
    {
        Fixed { raw: saturate_wide(-(self.raw as i128)) }
    }

    /// The magnitude.
    #[verifier::when_used_as_spec(spec_abs)]
    pub fn abs(self) -> (r: Fixed)
        ensures
            r == self.spec_abs(),
    {
        if self.raw < 0 {
            self.neg()
        } else {
            self
        }
    }

    /// Saturating multiplication, rounded down.
    #[verifier::when_used_as_spec(spec_mul)]
    pub fn mul(self, rhs: Fixed) -> (r: Fixed)
        ensures
            r == self.spec_mul(rhs),
    {
        let a: i64 = self.raw;
        let b: i64 = rhs.raw;
        assert(-0x4000_0000_0000_0000_0000_0000_0000_0000 <= a * b
            <= 0x4000_0000_0000_0000_0000_0000_0000_0000) by (nonlinear_arith)
            requires
                -0x8000_0000_0000_0000 <= a <= 0x7fff_ffff_ffff_ffff,
                -0x8000_0000_0000_0000 <= b <= 0x7fff_ffff_ffff_ffff,
        ;
        let p: i128 = (a as i128) * (b as i128);
        Fixed { raw: saturate_wide(floor_div_wide(p, 16_777_216)) }
    }

    /// Saturating division, rounded down. A division by zero gives the end of
    /// the range on the dividend's side, and zero for 0 / 0.
    #[verifier::when_used_as_spec(spec_div)]
    pub fn div(self, rhs: Fixed) -> (r: Fixed)
        ensures
            r == self.spec_div(rhs),
    {
        if rhs.raw == 0 {
            if self.raw > 0 {
                Fixed { raw: i64::MAX }
            } else if self.raw < 0 {
                Fixed { raw: i64::MIN }
            } else {
                Fixed { raw: 0 }
            }
        } else {
            let n: i128 = scale_up(self.raw);
            let d: i128 = rhs.raw as i128;
            if d > 0 {
                Fixed { raw: saturate_wide(floor_div_wide(n, d)) }
            } else {
                Fixed { raw: saturate_wide(floor_div_wide(-n, -d)) }
            }
        }
    }

    /// The square root, rounded down; zero for a negative number.
    #[verifier::when_used_as_spec(spec_sqrt)]
    pub fn sqrt(self) -> (r: Fixed)
        ensures
            r == self.spec_sqrt(),
    {
        if self.raw <= 0 {
            Fixed { raw: 0 }
        } else {
            let n: u128 = scale_up(self.raw) as u128;
            let root: u128 = isqrt_wide(n);
            Fixed { raw: root as i64 }
        }
    }

    /// The largest whole number that is not above `self`, as an integer.
    #[verifier::when_used_as_spec(spec_floor_int)]
    pub fn floor_int(self) -> (r: i64)
        ensures
            r == self.spec_floor_int(),
    {
        floor_div_wide(self.raw as i128, 16_777_216) as i64
    }

    /// The largest whole number that is not above `self`.
    #[verifier::when_used_as_spec(spec_floor)]
    pub fn floor(self) -> (r: Fixed)
        ensures
            r == self.spec_floor(),
            r.raw <= self.raw < r.raw + SCALE,
    {
        let q: i64 = self.floor_int();
        proof {
            lemma_fundamental_div_mod(self.raw as int, SCALE as int);
        }
        Fixed { raw: q * 16_777_216 }
    }

    /// The smaller of the two.
    #[verifier::when_used_as_spec(spec_min)]
    pub fn min(self, rhs: Fixed) -> (r: Fixed)
        ensures
            r == self.spec_min(rhs),
    {
        if self.raw <= rhs.raw {
            self
        } else {
            rhs
        }
    }

    /// The larger of the two.
    #[verifier::when_used_as_spec(spec_max)]
    pub fn max(self, rhs: Fixed) -> (r: Fixed)
        ensures
            r == self.spec_max(rhs),
    {
        if self.raw >= rhs.raw {
            self
        } else {
            rhs
        }
    }
}

impl PartialOrd for Fixed {
    /// Orders two numbers by their numerators.
    fn partial_cmp(&self, other: &Fixed) -> (r: Option<Ordering>) {
        if self.raw < other.raw {
            Some(Ordering::Less)
        } else if self.raw > other.raw {
            Some(Ordering::Greater)
        } else {
            Some(Ordering::Equal)
        }
    }
}

impl PartialOrdSpecImpl for Fixed {
    open spec fn obeys_partial_cmp_spec() -> bool {
        true
    }

    open spec fn partial_cmp_spec(&self, other: &Fixed) -> Option<Ordering> {
        if self.raw < other.raw {
            Some(Ordering::Less)
        } else if self.raw > other.raw {
            Some(Ordering::Greater)
        } else {
            Some(Ordering::Equal)
        }
    }
}

impl Default for Fixed {
    fn default() -> (r: Fixed)
        ensures
            r.raw == 0,
    {
        Fixed { raw: 0 }
    }
}

} // verus!
