//! Elementary functions on fixed-point numbers.
//!
//! Each function is a short polynomial in saturating fixed-point arithmetic
//! after a reduction of its argument, and its contract is that polynomial: the
//! results approximate the real functions to about five decimal places, which
//! no contract here claims.

use vstd::prelude::*;
use crate::fixed::{Fixed, SCALE};
use crate::math::PI_RAW;

verus! {

/// The numerator of the fixed-point number nearest to two pi.
pub const TWO_PI_RAW: i64 = 105_414_357;

/// The numerator of the fixed-point number nearest to half of pi.
pub const HALF_PI_RAW: i64 = 26_353_589;

/// The numerator of the fixed-point number nearest to the natural logarithm of two.
pub const LN_2_RAW: i64 = 11_629_080;

/// The numerator of one half.
pub const HALF_RAW: i64 = 8_388_608;

/// The numerators of the coefficients of the arctangent polynomial, from the
/// first power to the ninth.
pub const ATAN_1: i64 = 16_774_968;

pub const ATAN_3: i64 = -5_541_506;

pub const ATAN_5: i64 = 3_022_264;

pub const ATAN_7: i64 = -1_428_295;

pub const ATAN_9: i64 = 349_555;

/// One step of a nested series: `1 - z2 / n * t`.
pub open spec fn spec_series_step(z2: Fixed, n: i32, t: Fixed) -> Fixed {
    Fixed::from_int(1).sub(z2.div(Fixed::from_int(n)).mul(t))
}

/// One step of a nested series: `1 - z2 / n * t`.
#[verifier::when_used_as_spec(spec_series_step)]
pub fn series_step(z2: Fixed, n: i32, t: Fixed) -> (r: Fixed)
    ensures
        r == spec_series_step(z2, n, t),
{
    Fixed::from_int(1).sub(z2.div(Fixed::from_int(n)).mul(t))
}

/// One step of an even polynomial in Horner form: `c + z2 * t`, with `c` as a numerator.
pub open spec fn spec_horner_step(c: i64, z2: Fixed, t: Fixed) -> Fixed {
    Fixed { raw: c }.add(z2.mul(t))
}

/// One step of an even polynomial in Horner form: `c + z2 * t`, with `c` as a numerator.
#[verifier::when_used_as_spec(spec_horner_step)]
pub fn horner_step(c: i64, z2: Fixed, t: Fixed) -> (r: Fixed)
    ensures
        r == spec_horner_step(c, z2, t),
{
    Fixed { raw: c }.add(z2.mul(t))
}

/// A numerator of at least `2 * SCALE` halved until it is below that, with the
/// number of halvings.
pub open spec fn halvings(raw: int) -> (int, int)
    decreases raw,
{
    if raw >= 2 * SCALE {
        let (m, e) = halvings(raw / 2);
        (m, e + 1)
    } else {
        (raw, 0)
    }
}

/// A positive numerator below `SCALE` doubled until it reaches `SCALE`, with
/// the negated number of doublings.
pub open spec fn doublings(raw: int) -> (int, int)
    decreases 2 * SCALE - raw,
{
    if 0 < raw < SCALE {
        let (m, e) = doublings(raw * 2);
        (m, e - 1)
    } else {
        (raw, 0)
    }
}

/// A positive numerator as a mantissa in `[SCALE, 2 * SCALE)` and a binary
/// exponent: `raw` is the mantissa times two to the exponent, up to the bits
/// that halving drops.
pub open spec fn normalize(raw: int) -> (int, int) {
    if raw >= 2 * SCALE {
        halvings(raw)
    } else {
        doublings(raw)
    }
}

/// The mantissa of a positive numerator lies in `[SCALE, 2 * SCALE)` and its
/// exponent within the width of the numerator.
pub proof fn lemma_normalize_range(raw: int)
    requires
        0 < raw <= i64::MAX,
    ensures
        SCALE <= normalize(raw).0 < 2 * SCALE,
        -24 <= normalize(raw).1 <= 39,
{
    vstd::arithmetic::power2::lemma2_to64();
    vstd::arithmetic::power2::lemma2_to64_rest();
    if raw >= 2 * SCALE {
        lemma_halvings_range(raw, 39);
    } else {
        lemma_doublings_range(raw, 24);
    }
}

proof fn lemma_halvings_range(raw: int, k: nat)
    requires
        SCALE <= raw,
        raw < vstd::arithmetic::power2::pow2(k) * 2 * SCALE,
    ensures
        SCALE <= halvings(raw).0 < 2 * SCALE,
        0 <= halvings(raw).1 <= k,
    decreases raw,
{
    if raw >= 2 * SCALE {
        if k == 0 {
            assert(vstd::arithmetic::power2::pow2(0) == 1) by {
                vstd::arithmetic::power2::lemma2_to64();
            }
        } else {
            vstd::arithmetic::power2::lemma_pow2_unfold(k);
            lemma_halvings_range(raw / 2, (k - 1) as nat);
        }
    }
}

proof fn lemma_doublings_range(raw: int, k: nat)
    requires
        0 < raw < 2 * SCALE,
        raw * vstd::arithmetic::power2::pow2(k) >= SCALE,
    ensures
        SCALE <= doublings(raw).0 < 2 * SCALE,
        -k <= doublings(raw).1 <= 0,
    decreases 2 * SCALE - raw,
{
    if raw < SCALE {
        if k == 0 {
            let p = vstd::arithmetic::power2::pow2(0);
            assert(p == 1) by {
                vstd::arithmetic::power2::lemma2_to64();
            }
            assert(raw * p == raw) by (nonlinear_arith)
                requires
                    p == 1,
            ;
        } else {
            vstd::arithmetic::power2::lemma_pow2_unfold(k);
            assert((raw * 2) * vstd::arithmetic::power2::pow2((k - 1) as nat) >= SCALE)
                by (nonlinear_arith)
                requires
                    raw * (2 * vstd::arithmetic::power2::pow2((k - 1) as nat)) >= SCALE,
            ;
            lemma_doublings_range(raw * 2, (k - 1) as nat);
        }
    }
}

fn normalize_raw(raw: i64) -> (r: (i64, i32))
    requires
        raw > 0,
    ensures
        (r.0 as int, r.1 as int) == normalize(raw as int),
        SCALE <= r.0 < 2 * SCALE,
{
    proof {
        lemma_normalize_range(raw as int);
        lemma_halvings_nonneg(raw as int);
        lemma_doublings_nonpos(raw as int);
    }
    let mut m: i64 = raw;
    let mut e: i32 = 0;
    if raw >= 33_554_432 {
        while m >= 33_554_432
            invariant
                m >= SCALE,
                0 <= e,
                halvings(raw as int) == (halvings(m as int).0, halvings(m as int).1 + e),
                0 <= halvings(raw as int).1 <= 39,
                halvings(m as int).1 >= 0,
            decreases m,
        {
            proof {
                assert(halvings((m / 2) as int).1 >= 0) by {
                    lemma_halvings_nonneg((m / 2) as int);
                }
            }
            m = m / 2;
            e = e + 1;
        }
    } else {
        while m < 16_777_216
            invariant
                0 < m < 2 * SCALE,
                -64 <= e <= 0,
                doublings(raw as int) == (doublings(m as int).0, doublings(m as int).1 + e),
                -24 <= doublings(raw as int).1 <= 0,
                doublings(m as int).1 <= 0,
            decreases 2 * SCALE - m,
        {
            proof {
                assert(doublings((m * 2) as int).1 <= 0) by {
                    lemma_doublings_nonpos((m * 2) as int);
                }
            }
            m = m * 2;
            e = e - 1;
        }
    }
    (m, e)
}

proof fn lemma_halvings_nonneg(raw: int)
    ensures
        halvings(raw).1 >= 0,
    decreases raw,
{
    if raw >= 2 * SCALE {
        lemma_halvings_nonneg(raw / 2);
    }
}

proof fn lemma_doublings_nonpos(raw: int)
    ensures
        doublings(raw).1 <= 0,
    decreases 2 * SCALE - raw,
{
    if 0 < raw < SCALE {
        lemma_doublings_nonpos(raw * 2);
    }
}

impl Fixed {
    /// An angle less the nearest whole number of turns, so about within `[-pi, pi]`.
    pub open spec fn spec_wrap_angle(self) -> Fixed {
        let turns = self.div(Fixed { raw: TWO_PI_RAW }).add(Fixed { raw: HALF_RAW }).floor();
        self.sub(turns.mul(Fixed { raw: TWO_PI_RAW }))
    }

    /// An angle of `[-pi, pi]` mirrored into `[-pi/2, pi/2]` at the same sine.
    pub open spec fn spec_fold_angle(self) -> Fixed {
        if self.raw > HALF_PI_RAW {
            Fixed { raw: PI_RAW }.sub(self)
        } else if self.raw < -(HALF_PI_RAW as int) {
            Fixed { raw: PI_RAW }.neg().sub(self)
        } else {
            self
        }
    }

    /// The sine series through the eleventh power, in nested form:
    /// `z (1 - z²/6 (1 - z²/20 (1 - z²/42 (1 - z²/72 (1 - z²/110)))))`.
    pub open spec fn spec_sin_series(self) -> Fixed {
        let z2 = self.mul(self);
        let t5 = series_step(z2, 110, Fixed::from_int(1));
        let t4 = series_step(z2, 72, t5);
        let t3 = series_step(z2, 42, t4);
        let t2 = series_step(z2, 20, t3);
        let t1 = series_step(z2, 6, t2);
        self.mul(t1)
    }

    /// The sine of an angle in radians: the series at the wrapped and folded angle.
    pub open spec fn spec_sin(self) -> Fixed {
        self.spec_wrap_angle().spec_fold_angle().spec_sin_series()
    }

    /// The cosine of an angle in radians: the sine a quarter turn on.
    pub open spec fn spec_cos(self) -> Fixed {
        self.add(Fixed { raw: HALF_PI_RAW }).spec_sin()
    }

    /// The tangent of an angle in radians: sine over cosine.
    pub open spec fn spec_tan(self) -> Fixed {
        self.spec_sin().div(self.spec_cos())
    }

    /// The arctangent on `[0, 1]`, as an odd polynomial of the ninth degree.
    pub open spec fn spec_atan_unit(self) -> Fixed {
        let z2 = self.mul(self);
        let t4 = Fixed { raw: ATAN_9 };
        let t3 = horner_step(ATAN_7, z2, t4);
        let t2 = horner_step(ATAN_5, z2, t3);
        let t1 = horner_step(ATAN_3, z2, t2);
        let t0 = horner_step(ATAN_1, z2, t1);
        self.mul(t0)
    }

    /// The angle of the point `(x, self)` from the positive x axis, in
    /// `[-pi, pi]`; zero at the origin.
    pub open spec fn spec_atan2(self, x: Fixed) -> Fixed {
        let ay = self.abs();
        let ax = x.abs();
        if ax.raw == 0 && ay.raw == 0 {
            Fixed { raw: 0 }
        } else {
            let octant = if ay.raw <= ax.raw {
                ay.div(ax).spec_atan_unit()
            } else {
                Fixed { raw: HALF_PI_RAW }.sub(ax.div(ay).spec_atan_unit())
            };
            let half = if x.raw < 0 {
                Fixed { raw: PI_RAW }.sub(octant)
            } else {
                octant
            };
            if self.raw < 0 {
                half.neg()
            } else {
                half
            }
        }
    }

    /// The arcsine: the angle of the point `(sqrt(1 - y²), y)`.
    pub open spec fn spec_asin(self) -> Fixed {
        self.spec_atan2(Fixed::from_int(1).sub(self.mul(self)).sqrt())
    }

    /// The natural logarithm of a mantissa `m` in `[1, 2)`, by the series of
    /// the inverse hyperbolic tangent at `s = (m - 1) / (m + 1)`:
    /// `2 s (1 + s²/3 + s⁴/5 + s⁶/7 + s⁸/9)`.
    pub open spec fn spec_ln_mantissa(self) -> Fixed {
        let one = Fixed::from_int(1);
        let s = self.sub(one).div(self.add(one));
        let s2 = s.mul(s);
        let t4 = one.div(Fixed::from_int(9));
        let t3 = one.div(Fixed::from_int(7)).add(s2.mul(t4));
        let t2 = one.div(Fixed::from_int(5)).add(s2.mul(t3));
        let t1 = one.div(Fixed::from_int(3)).add(s2.mul(t2));
        let t0 = one.add(s2.mul(t1));
        Fixed::from_int(2).mul(s).mul(t0)
    }

    /// The natural logarithm: the exponent times the logarithm of two, plus
    /// the logarithm of the mantissa. Negative infinity at zero and below.
    pub open spec fn spec_ln(self) -> Fixed {
        if self.raw <= 0 {
            Fixed { raw: i64::MIN }
        } else {
            let (m, e) = normalize(self.raw as int);
            Fixed::from_int(e as i32).mul(Fixed { raw: LN_2_RAW }).add(
                Fixed { raw: m as i64 }.spec_ln_mantissa(),
            )
        }
    }

    /// The fifth power.
    pub open spec fn spec_pow5(self) -> Fixed {
        let x2 = self.mul(self);
        x2.mul(x2).mul(self)
    }

    /// The sine of an angle in radians.
    #[verifier::when_used_as_spec(spec_sin)]
    pub fn sin(self) -> (r: Fixed)
        ensures
            r == self.spec_sin(),
    {
        let two_pi = Fixed { raw: TWO_PI_RAW };
        let turns = self.div(two_pi).add(Fixed { raw: HALF_RAW }).floor();
        let wrapped = self.sub(turns.mul(two_pi));
        let z = if wrapped.raw > HALF_PI_RAW {
            Fixed { raw: PI_RAW }.sub(wrapped)
        } else if wrapped.raw < -HALF_PI_RAW {
            Fixed { raw: PI_RAW }.neg().sub(wrapped)
        } else {
            wrapped
        };
        let z2 = z.mul(z);
        let t5 = series_step(z2, 110, Fixed::from_int(1));
        let t4 = series_step(z2, 72, t5);
        let t3 = series_step(z2, 42, t4);
        let t2 = series_step(z2, 20, t3);
        let t1 = series_step(z2, 6, t2);
        z.mul(t1)
    }

    /// The cosine of an angle in radians.
    #[verifier::when_used_as_spec(spec_cos)]
    pub fn cos(self) -> (r: Fixed)
        ensures
            r == self.spec_cos(),
    {
        self.add(Fixed { raw: HALF_PI_RAW }).sin()
    }

    /// The tangent of an angle in radians.
    #[verifier::when_used_as_spec(spec_tan)]
    pub fn tan(self) -> (r: Fixed)
        ensures
            r == self.spec_tan(),
    {
        self.sin().div(self.cos())
    }

    /// The angle of the point `(x, self)` from the positive x axis.
    #[verifier::when_used_as_spec(spec_atan2)]
    pub fn atan2(self, x: Fixed) -> (r: Fixed)
        ensures
            r == self.spec_atan2(x),
    {
        let ay = self.abs();
        let ax = x.abs();
        if ax.raw == 0 && ay.raw == 0 {
            return Fixed { raw: 0 };
        }
        let octant = if ay.raw <= ax.raw {
            atan_unit(ay.div(ax))
        } else {
            Fixed { raw: HALF_PI_RAW }.sub(atan_unit(ax.div(ay)))
        };
        let half = if x.raw < 0 {
            Fixed { raw: PI_RAW }.sub(octant)
        } else {
            octant
        };
        if self.raw < 0 {
            half.neg()
        } else {
            half
        }
    }

    /// The arcsine.
    #[verifier::when_used_as_spec(spec_asin)]
    pub fn asin(self) -> (r: Fixed)
        ensures
            r == self.spec_asin(),
    {
        self.atan2(Fixed::from_int(1).sub(self.mul(self)).sqrt())
    }

    /// The natural logarithm; negative infinity at zero and below.
    #[verifier::when_used_as_spec(spec_ln)]
    pub fn ln(self) -> (r: Fixed)
        ensures
            r == self.spec_ln(),
    {
        if self.raw <= 0 {
            return Fixed { raw: i64::MIN };
        }
        let (m, e) = normalize_raw(self.raw);
        let mantissa = Fixed { raw: m };
        let one = Fixed::from_int(1);
        let s = mantissa.sub(one).div(mantissa.add(one));
        let s2 = s.mul(s);
        let t4 = one.div(Fixed::from_int(9));
        let t3 = one.div(Fixed::from_int(7)).add(s2.mul(t4));
        let t2 = one.div(Fixed::from_int(5)).add(s2.mul(t3));
        let t1 = one.div(Fixed::from_int(3)).add(s2.mul(t2));
        let t0 = one.add(s2.mul(t1));
        Fixed::from_int(e).mul(Fixed { raw: LN_2_RAW }).add(Fixed::from_int(2).mul(s).mul(t0))
    }

    /// The fifth power.
    #[verifier::when_used_as_spec(spec_pow5)]
    pub fn pow5(self) -> (r: Fixed)
        ensures
            r == self.spec_pow5(),
    {
        let x2 = self.mul(self);
        x2.mul(x2).mul(self)
    }
}

/// The sine repeats after a whole turn: an angle and the angle a turn on,
/// neither of them near an end of the range, wrap to one angle and so have
/// one sine, and one cosine.
pub proof fn lemma_sine_repeats(angle: Fixed)
    requires
        -0x100_0000_0000 <= angle.raw <= 0x100_0000_0000,
    ensures
        angle.add(Fixed { raw: TWO_PI_RAW }).spec_wrap_angle() == angle.spec_wrap_angle(),
        angle.add(Fixed { raw: TWO_PI_RAW }).spec_sin() == angle.spec_sin(),
        angle.add(Fixed { raw: TWO_PI_RAW }).spec_cos() == angle.spec_cos(),
{
    lemma_wrap_repeats(angle);
    lemma_wrap_repeats(angle.add(Fixed { raw: HALF_PI_RAW }));
    assert(angle.add(Fixed { raw: TWO_PI_RAW }).add(Fixed { raw: HALF_PI_RAW }) == angle.add(
        Fixed { raw: HALF_PI_RAW },
    ).add(Fixed { raw: TWO_PI_RAW }));
}

proof fn lemma_wrap_repeats(angle: Fixed)
    requires
        -0x200_0000_0000 <= angle.raw <= 0x200_0000_0000,
    ensures
        angle.add(Fixed { raw: TWO_PI_RAW }).spec_wrap_angle() == angle.spec_wrap_angle(),
{
    let x = angle.raw as int;
    let t = TWO_PI_RAW as int;
    let s = SCALE as int;
    let q = (x * s) / t;
    // the quotient by a turn grows by one
    assert(((x + t) * s) / t == q + s) by {
        assert((x + t) * s == x * s + s * t) by (nonlinear_arith);
        vstd::arithmetic::div_mod::lemma_hoist_over_denominator(x * s, s, t as nat);
    }
    assert(-0x200_0000_0000 * s <= x * s <= 0x200_0000_0000 * s) by (nonlinear_arith)
        requires
            -0x200_0000_0000 <= x <= 0x200_0000_0000,
            s == 16_777_216,
    ;
    assert(-0x200_0000_0000 <= q <= 0x200_0000_0000) by {
        assert(t * -0x200_0000_0000 <= x * s <= t * 0x200_0000_0000);
        vstd::arithmetic::div_mod::lemma_div_is_ordered(t * -0x200_0000_0000, x * s, t);
        vstd::arithmetic::div_mod::lemma_div_is_ordered(x * s, t * 0x200_0000_0000, t);
        vstd::arithmetic::div_mod::lemma_div_multiples_vanish(-0x200_0000_0000, t);
        vstd::arithmetic::div_mod::lemma_div_multiples_vanish(0x200_0000_0000, t);
    }
    // and so does the number of turns
    let h = q + HALF_RAW;
    let k = h / s;
    assert((h + s) / s == k + 1) by {
        vstd::arithmetic::div_mod::lemma_hoist_over_denominator(h, 1, s as nat);
    }
    assert(-0x20_0001 <= k <= 0x20_0001) by {
        assert(s * -0x20_0001 <= h <= s * 0x20_0001);
        vstd::arithmetic::div_mod::lemma_div_is_ordered(s * -0x20_0001, h, s);
        vstd::arithmetic::div_mod::lemma_div_is_ordered(h, s * 0x20_0001, s);
        vstd::arithmetic::div_mod::lemma_div_multiples_vanish(-0x20_0001, s);
        vstd::arithmetic::div_mod::lemma_div_multiples_vanish(0x20_0001, s);
    }
    // a whole number of turns is taken off exactly
    assert((k * s * t) / s == k * t) by {
        assert(k * s * t == s * (k * t)) by (nonlinear_arith);
        vstd::arithmetic::div_mod::lemma_div_multiples_vanish(k * t, s);
    }
    assert(((k + 1) * s * t) / s == (k + 1) * t) by {
        assert((k + 1) * s * t == s * ((k + 1) * t)) by (nonlinear_arith);
        vstd::arithmetic::div_mod::lemma_div_multiples_vanish((k + 1) * t, s);
    }
    assert(-0x20_0002 * t <= k * t <= 0x20_0002 * t && -0x20_0002 * t <= (k + 1) * t <= 0x20_0002
        * t) by (nonlinear_arith)
        requires
            -0x20_0001 <= k <= 0x20_0001,
            t == 105_414_357,
    ;
    assert(-0x20_0002 * s <= k * s <= 0x20_0002 * s && -0x20_0002 * s <= (k + 1) * s <= 0x20_0002
        * s) by (nonlinear_arith)
        requires
            -0x20_0001 <= k <= 0x20_0001,
            s == 16_777_216,
    ;
    let turns = angle.div(Fixed { raw: TWO_PI_RAW }).add(Fixed { raw: HALF_RAW }).floor();
    let more = angle.add(Fixed { raw: TWO_PI_RAW });
    let turns_more = more.div(Fixed { raw: TWO_PI_RAW }).add(Fixed { raw: HALF_RAW }).floor();
    assert(turns.raw == k * s);
    assert(turns_more.raw == (k + 1) * s);
    assert(turns.raw * t == k * s * t) by (nonlinear_arith)
        requires
            turns.raw == k * s,
    ;
    assert(turns_more.raw * t == (k + 1) * s * t) by (nonlinear_arith)
        requires
            turns_more.raw == (k + 1) * s,
    ;
    assert(turns.mul(Fixed { raw: TWO_PI_RAW }).raw == k * t);
    assert(turns_more.mul(Fixed { raw: TWO_PI_RAW }).raw == (k + 1) * t);
    assert((k + 1) * t == k * t + t) by (nonlinear_arith);
}

fn atan_unit(t: Fixed) -> (r: Fixed)
    ensures
        r == t.spec_atan_unit(),
{
    let z2 = t.mul(t);
    let t4 = Fixed { raw: ATAN_9 };
    let t3 = horner_step(ATAN_7, z2, t4);
    let t2 = horner_step(ATAN_5, z2, t3);
    let t1 = horner_step(ATAN_3, z2, t2);
    let t0 = horner_step(ATAN_1, z2, t1);
    t.mul(t0)
}

} // verus!
