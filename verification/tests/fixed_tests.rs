use pathtracer::fixed::{Fixed, SCALE};
use pathtracer::math::{degrees_to_radians, pi};

fn fx(x: f64) -> Fixed {
    Fixed::from_raw((x * SCALE as f64).round() as i64)
}

fn fl(x: Fixed) -> f64 {
    x.raw() as f64 / SCALE as f64
}

fn close(a: Fixed, b: f64, tolerance: f64) -> bool {
    (fl(a) - b).abs() <= tolerance
}

#[test]
fn whole_numbers_and_ratios() {
    assert_eq!(Fixed::from_int(3).raw(), 3 * SCALE);
    assert_eq!(Fixed::from_int(-2).raw(), -2 * SCALE);
    assert_eq!(Fixed::from_ratio(1, 2).raw(), SCALE / 2);
    assert_eq!(Fixed::from_ratio(1, 1000).raw(), 16_777);
    assert_eq!(Fixed::from_ratio(-1, 3).raw(), -5_592_406);
    assert_eq!(Fixed::zero().raw(), 0);
    assert_eq!(Fixed::one().raw(), SCALE);
    assert_eq!(Fixed::default().raw(), 0);
}

#[test]
fn sums_and_differences_are_exact() {
    assert_eq!(fx(1.5).add(fx(2.25)), fx(3.75));
    assert_eq!(fx(1.5).sub(fx(2.25)), fx(-0.75));
    assert_eq!(fx(1.5).neg(), fx(-1.5));
    assert_eq!(fx(-1.5).abs(), fx(1.5));
    assert_eq!(fx(1.5).abs(), fx(1.5));
}

#[test]
fn sums_saturate_at_the_ends_of_the_range() {
    assert_eq!(Fixed::infinity().add(Fixed::one()), Fixed::infinity());
    assert_eq!(Fixed::neg_infinity().sub(Fixed::one()), Fixed::neg_infinity());
    assert_eq!(Fixed::neg_infinity().neg(), Fixed::infinity());
    assert_eq!(Fixed::infinity().mul(Fixed::from_int(2)), Fixed::infinity());
    assert_eq!(Fixed::infinity().mul(Fixed::from_int(-2)), Fixed::neg_infinity());
}

#[test]
fn products_round_down() {
    assert_eq!(fx(1.5).mul(fx(2.5)), fx(3.75));
    assert_eq!(fx(-1.5).mul(fx(2.5)), fx(-3.75));
    // one step times one half is half a step: rounded down to zero, and to
    // one step below zero for the negative product
    assert_eq!(Fixed::from_raw(1).mul(fx(0.5)).raw(), 0);
    assert_eq!(Fixed::from_raw(-1).mul(fx(0.5)).raw(), -1);
    assert_eq!(fx(7.0).mul(Fixed::zero()), Fixed::zero());
}

#[test]
fn quotients_round_down() {
    assert_eq!(fx(3.75).div(fx(2.5)), fx(1.5));
    assert_eq!(fx(-3.75).div(fx(2.5)), fx(-1.5));
    assert_eq!(fx(3.75).div(fx(-2.5)), fx(-1.5));
    assert_eq!(Fixed::from_int(1).div(Fixed::from_int(3)).raw(), 5_592_405);
    assert_eq!(Fixed::from_int(-1).div(Fixed::from_int(3)).raw(), -5_592_406);
    assert_eq!(Fixed::from_int(1).div(Fixed::from_int(-3)).raw(), -5_592_406);
}

#[test]
fn division_by_zero_goes_to_the_end_of_the_range() {
    assert_eq!(fx(2.0).div(Fixed::zero()), Fixed::infinity());
    assert_eq!(fx(-2.0).div(Fixed::zero()), Fixed::neg_infinity());
    assert_eq!(Fixed::zero().div(Fixed::zero()), Fixed::zero());
}

#[test]
fn square_roots_round_down() {
    assert_eq!(fx(0.25).sqrt(), fx(0.5));
    assert_eq!(fx(4.0).sqrt(), fx(2.0));
    assert_eq!(fx(1.0).sqrt(), fx(1.0));
    assert_eq!(fx(0.0).sqrt(), fx(0.0));
    assert_eq!(fx(-4.0).sqrt(), fx(0.0));
    let root = fx(2.0).sqrt();
    assert_eq!(root.raw(), 23_726_566);
    let r = root.raw() as i128;
    let n = 2 * (SCALE as i128) * (SCALE as i128);
    assert!(r * r <= n && n < (r + 1) * (r + 1));
}

#[test]
fn floor_is_the_whole_number_below() {
    assert_eq!(fx(2.75).floor(), fx(2.0));
    assert_eq!(fx(-2.75).floor(), fx(-3.0));
    assert_eq!(fx(3.0).floor(), fx(3.0));
    assert_eq!(fx(2.75).floor_int(), 2);
    assert_eq!(fx(-2.75).floor_int(), -3);
    assert_eq!(fx(-0.5).floor_int(), -1);
}

#[test]
fn smaller_and_larger() {
    assert_eq!(fx(1.0).min(fx(2.0)), fx(1.0));
    assert_eq!(fx(1.0).max(fx(2.0)), fx(2.0));
    assert_eq!(fx(-1.0).min(fx(-2.0)), fx(-2.0));
    assert!(fx(1.0) < fx(2.0));
    assert!(fx(2.0) >= fx(2.0));
    assert!(!(fx(2.0) < fx(2.0)));
    assert!(fx(-3.0) < fx(2.0));
}

#[test]
fn sine_and_cosine_are_near_the_real_functions() {
    let mut x = -20.0;
    while x < 20.0 {
        assert!(close(fx(x).sin(), f64::sin(x), 1e-5), "sin({})", x);
        assert!(close(fx(x).cos(), f64::cos(x), 1e-5), "cos({})", x);
        x += 0.137;
    }
    assert_eq!(Fixed::zero().sin(), Fixed::zero());
    assert!(close(Fixed::zero().cos(), 1.0, 1e-6));
    assert!(close(pi().div(Fixed::from_int(2)).sin(), 1.0, 1e-6));
}

#[test]
fn tangent_is_sine_over_cosine() {
    assert!(close(fx(0.5).tan(), f64::tan(0.5), 1e-5));
    assert!(close(fx(-1.0).tan(), f64::tan(-1.0), 1e-5));
    assert_eq!(fx(0.7).tan(), fx(0.7).sin().div(fx(0.7).cos()));
}

#[test]
fn arctangent_of_two_arguments_covers_the_four_quadrants() {
    let points = [
        (1.0, 1.0),
        (1.0, -1.0),
        (-1.0, 1.0),
        (-1.0, -1.0),
        (0.0, 1.0),
        (1.0, 0.0),
        (0.0, -1.0),
        (0.3, -2.0),
        (-5.0, 0.4),
        (0.001, 0.002),
    ];
    for (y, x) in points {
        assert!(close(fx(y).atan2(fx(x)), f64::atan2(y, x), 2e-5), "atan2({}, {})", y, x);
    }
    assert_eq!(Fixed::zero().atan2(Fixed::zero()), Fixed::zero());
    assert!(close(Fixed::zero().atan2(fx(-1.0)), std::f64::consts::PI, 1e-6));
}

#[test]
fn arcsine_is_near_the_real_function() {
    let mut y = -1.0;
    while y <= 1.0 {
        assert!(close(fx(y).asin(), f64::asin(y), 5e-4), "asin({})", y);
        y += 0.0625;
    }
    assert_eq!(Fixed::zero().asin(), Fixed::zero());
}

#[test]
fn logarithm_is_near_the_real_function() {
    for x in [0.001, 0.01, 0.3, 0.5, 0.999, 1.0, 1.5, 2.0, 10.0, 12345.0] {
        let exact = fl(fx(x));
        assert!(close(fx(x).ln(), f64::ln(exact), 1e-5), "ln({})", x);
    }
    assert_eq!(Fixed::zero().ln(), Fixed::neg_infinity());
    assert_eq!(fx(-1.0).ln(), Fixed::neg_infinity());
    assert_eq!(Fixed::one().ln(), Fixed::zero());
}

#[test]
fn fifth_power() {
    assert_eq!(fx(2.0).pow5(), fx(32.0));
    assert_eq!(fx(-1.0).pow5(), fx(-1.0));
    assert_eq!(fx(0.5).pow5(), fx(0.03125));
    assert_eq!(Fixed::zero().pow5(), Fixed::zero());
}

#[test]
fn degrees_turn_into_radians() {
    assert!(close(degrees_to_radians(fx(180.0)), std::f64::consts::PI, 1e-6));
    assert!(close(degrees_to_radians(fx(90.0)), std::f64::consts::FRAC_PI_2, 1e-6));
    assert_eq!(degrees_to_radians(Fixed::zero()), Fixed::zero());
    assert_eq!(pi().raw(), 52_707_179);
}

#[test]
fn sine_repeats_after_a_turn() {
    let turn = Fixed::from_raw(pathtracer::trig::TWO_PI_RAW);
    let mut raw: i64 = -0x100_0000_0000;
    while raw <= 0x100_0000_0000 - 104_729 {
        let angle = Fixed::from_raw(raw);
        assert_eq!(angle.add(turn).sin(), angle.sin());
        assert_eq!(angle.add(turn).cos(), angle.cos());
        raw += 104_729 * 4_099;
    }
    for raw in [-0x100_0000_0000i64, -1, 0, 1, 26_353_589, 52_707_179, 0x100_0000_0000] {
        let angle = Fixed::from_raw(raw);
        assert_eq!(angle.add(turn).sin(), angle.sin());
        assert_eq!(angle.add(turn).add(turn).cos(), angle.cos());
    }
}
