use pathtracer::fixed::{Fixed, SCALE};
use pathtracer::math::{
    clamp, cross, dot, int_from_bits, lerp, normalize, random_double, random_range_double,
    random_range_int, reflect, refract, unit_from_bits, Vec3,
};

fn fx(x: f64) -> Fixed {
    Fixed::from_raw((x * SCALE as f64).round() as i64)
}

fn fl(x: Fixed) -> f64 {
    x.raw() as f64 / SCALE as f64
}

fn v(x: f64, y: f64, z: f64) -> Vec3 {
    Vec3::new(fx(x), fx(y), fx(z))
}

fn near(a: Vec3, b: Vec3, tolerance: f64) -> bool {
    (fl(a.0) - fl(b.0)).abs() <= tolerance
        && (fl(a.1) - fl(b.1)).abs() <= tolerance
        && (fl(a.2) - fl(b.2)).abs() <= tolerance
}

#[test]
fn clamp_pins_to_the_interval() {
    assert_eq!(clamp(5, 0, 10), 5);
    assert_eq!(clamp(-5, 0, 10), 0);
    assert_eq!(clamp(15, 0, 10), 10);
    assert_eq!(clamp(0, 0, 10), 0);
    assert_eq!(clamp(10, 0, 10), 10);
    assert_eq!(clamp(fx(1.5), fx(0.0), fx(1.0)), fx(1.0));
    assert_eq!(clamp(fx(-0.5), fx(0.0), fx(1.0)), fx(0.0));
    assert_eq!(clamp(fx(0.25), fx(0.0), fx(1.0)), fx(0.25));
}

#[test]
fn clamp_tests_the_upper_end_first() {
    // with the ends the wrong way round the upper end wins
    assert_eq!(clamp(5, 10, 0), 0);
}

#[test]
fn vector_algebra() {
    let a = v(1.0, 2.0, 3.0);
    let b = v(-4.0, 0.5, 2.0);
    assert_eq!(a.add(b), v(-3.0, 2.5, 5.0));
    assert_eq!(a.sub(b), v(5.0, 1.5, 1.0));
    assert_eq!(a.mul(b), v(-4.0, 1.0, 6.0));
    assert_eq!(a.scale(fx(2.0)), v(2.0, 4.0, 6.0));
    assert_eq!(a.div(fx(2.0)), v(0.5, 1.0, 1.5));
    assert_eq!(a.neg(), v(-1.0, -2.0, -3.0));
    assert_eq!(a.length_squared(), fx(14.0));
    assert_eq!(v(3.0, 4.0, 0.0).length(), fx(5.0));
    assert_eq!(dot(&a, &b), fx(3.0));
    assert_eq!(cross(&a, &b), v(2.5, -14.0, 8.5));
    assert_eq!(cross(&v(1.0, 0.0, 0.0), &v(0.0, 1.0, 0.0)), v(0.0, 0.0, 1.0));
}

#[test]
fn components_by_name_and_by_axis() {
    let mut a = v(1.0, 2.0, 3.0);
    assert_eq!(a.x(), fx(1.0));
    assert_eq!(a.y(), fx(2.0));
    assert_eq!(a.z(), fx(3.0));
    assert_eq!(a.index(0), fx(1.0));
    assert_eq!(a.index(1), fx(2.0));
    assert_eq!(a.index(2), fx(3.0));
    a.index_mut(1, fx(7.0));
    assert_eq!(a, v(1.0, 7.0, 3.0));
    assert_eq!(Vec3::from(fx(1.0), fx(7.0), fx(3.0)), a);
}

#[test]
fn named_vectors() {
    assert_eq!(Vec3::black(), v(0.0, 0.0, 0.0));
    assert_eq!(Vec3::white(), v(1.0, 1.0, 1.0));
    assert_eq!(Vec3::cyan(), v(0.0, 1.0, 1.0));
    assert_eq!(Vec3::up(), v(0.0, 1.0, 0.0));
    assert_eq!(Vec3::default(), v(0.0, 0.0, 0.0));
}

#[test]
fn normalize_gives_unit_length() {
    assert_eq!(
        normalize(&v(0.0, 3.0, 4.0)),
        Vec3::new(fx(0.0), Fixed::from_ratio(3, 5), Fixed::from_ratio(4, 5))
    );
    let n = normalize(&v(1.0, 1.0, 1.0));
    assert!((fl(n.length()) - 1.0).abs() < 1e-6);
}

#[test]
fn reflect_mirrors_at_the_normal() {
    assert_eq!(reflect(&v(1.0, -1.0, 0.0), &v(0.0, 1.0, 0.0)), v(1.0, 1.0, 0.0));
    assert_eq!(reflect(&v(0.0, 0.0, -1.0), &v(0.0, 0.0, 1.0)), v(0.0, 0.0, 1.0));
    assert_eq!(reflect(&v(1.0, 0.0, 0.0), &v(0.0, 1.0, 0.0)), v(1.0, 0.0, 0.0));
}

#[test]
fn refract_bends_towards_the_normal_in_a_denser_medium() {
    let incoming = normalize(&v(1.0, -1.0, 0.0));
    let normal = v(0.0, 1.0, 0.0);
    let out = refract(&incoming, &normal, fx(1.0 / 1.5));
    // Snell: sin(out) = sin(in) / 1.5
    let sin_out = f64::sin(std::f64::consts::FRAC_PI_4) / 1.5;
    assert!((fl(out.0) - sin_out).abs() < 1e-6);
    assert!((fl(out.1) + f64::sqrt(1.0 - sin_out * sin_out)).abs() < 1e-6);
    assert_eq!(out.2, fx(0.0));
}

#[test]
fn refract_with_ratio_one_does_not_bend() {
    let normal = v(0.0, 1.0, 0.0);
    // straight incidence: the very same direction comes out
    assert_eq!(refract(&v(0.0, -1.0, 0.0), &normal, fx(1.0)), v(0.0, -1.0, 0.0));
    assert_eq!(
        refract(&v(0.0, 0.0, -1.0), &v(0.0, 0.0, 1.0), fx(1.0)),
        v(0.0, 0.0, -1.0)
    );
    // slanted incidence: the same direction up to rounding
    for (x, y, z) in [(1.0, -1.0, 0.0), (0.3, -2.0, 0.5), (-1.0, -0.2, 0.7), (0.0, -1.0, 3.0)] {
        let incoming = normalize(&v(x, y, z));
        let out = refract(&incoming, &normal, fx(1.0));
        assert!(near(out, incoming, 1e-6), "({}, {}, {})", x, y, z);
    }
}

#[test]
fn lerp_runs_from_one_end_to_the_other() {
    assert_eq!(lerp(fx(2.0), fx(6.0), fx(0.0)), fx(2.0));
    assert_eq!(lerp(fx(2.0), fx(6.0), fx(0.5)), fx(4.0));
    assert_eq!(lerp(fx(2.0), fx(6.0), fx(0.25)), fx(3.0));
    assert_eq!(lerp(fx(-1.0), fx(1.0), fx(0.75)), fx(0.5));
}

#[test]
fn bits_turn_into_a_fraction() {
    assert_eq!(unit_from_bits(0), fx(0.0));
    assert_eq!(unit_from_bits(1 << 63), fx(0.5));
    assert_eq!(unit_from_bits(3 << 62), fx(0.75));
    assert_eq!(unit_from_bits(u64::MAX).raw(), SCALE - 1);
    assert_eq!(unit_from_bits((1 << 40) - 1).raw(), 0);
    assert_eq!(unit_from_bits(1 << 40).raw(), 1);
}

#[test]
fn bits_turn_into_a_whole_number_of_a_range() {
    assert_eq!(int_from_bits(0, 2, 0), 0);
    assert_eq!(int_from_bits(0, 2, 1), 1);
    assert_eq!(int_from_bits(0, 2, 2), 2);
    assert_eq!(int_from_bits(0, 2, 3), 0);
    assert_eq!(int_from_bits(-5, 5, 10), 5);
    assert_eq!(int_from_bits(-5, 5, 11), -5);
    assert_eq!(int_from_bits(7, 7, 12345), 7);
    assert_eq!(int_from_bits(i32::MIN, i32::MAX, u64::MAX), i32::MAX);
}

#[test]
fn random_numbers_stay_in_their_ranges() {
    let mut distinct = 0;
    let first = random_double();
    for _ in 0..1000 {
        let u = random_double();
        assert!(0 <= u.raw() && u.raw() < SCALE);
        if u != first {
            distinct += 1;
        }
        let r = random_range_double(fx(-3.0), fx(5.0));
        assert!(fx(-3.0) <= r && r <= fx(5.0));
        let i = random_range_int(0, 2);
        assert!(0 <= i && i <= 2);
    }
    assert!(distinct > 990);
}

#[test]
fn random_whole_numbers_reach_every_value() {
    let mut seen = [false; 3];
    for _ in 0..200 {
        seen[random_range_int(0, 2) as usize] = true;
    }
    assert_eq!(seen, [true, true, true]);
}

#[test]
fn random_vectors_stay_in_their_regions() {
    for _ in 0..500 {
        let c = Vec3::random();
        assert!(0 <= c.0.raw() && c.0.raw() < SCALE);
        assert!(0 <= c.1.raw() && c.1.raw() < SCALE);
        assert!(0 <= c.2.raw() && c.2.raw() < SCALE);
        let r = Vec3::random_range(fx(-1.0), fx(1.0));
        assert!(fx(-1.0) <= r.0 && r.0 <= fx(1.0));
        assert!(fx(-1.0) <= r.1 && r.1 <= fx(1.0));
        assert!(fx(-1.0) <= r.2 && r.2 <= fx(1.0));
        let s = Vec3::random_in_unit_sphere();
        assert!(s.length_squared() < fx(1.0));
        let d = Vec3::random_in_unit_disk();
        assert!(d.length_squared() < fx(1.0));
        assert_eq!(d.2, fx(0.0));
        let u = Vec3::random_unit_vector();
        assert!((fl(u.length()) - 1.0).abs() < 1e-4);
        let normal = v(0.0, 0.0, 1.0);
        let h = Vec3::random_in_hemisphere(&normal);
        assert!(h.length_squared() < fx(1.0));
        assert!(dot(&h, &normal) >= fx(0.0));
    }
}

#[test]
fn points_of_the_unit_sphere_by_longitude_and_height() {
    assert_eq!(Vec3::on_unit_sphere(fx(0.0), fx(1.0)), v(0.0, 0.0, 1.0));
    let p = Vec3::on_unit_sphere(fx(0.0), fx(0.0));
    assert!(near(p, v(1.0, 0.0, 0.0), 1e-6));
    let q = Vec3::on_unit_sphere(fx(std::f64::consts::FRAC_PI_2), fx(0.6));
    assert!(near(q, v(0.0, 0.8, 0.6), 1e-6));
}

#[test]
fn towards_turns_a_vector_to_the_side_of_the_normal() {
    let normal = v(0.0, 1.0, 0.0);
    assert_eq!(Vec3::towards(v(0.1, 0.5, 0.0), normal), v(0.1, 0.5, 0.0));
    assert_eq!(Vec3::towards(v(0.1, -0.5, 0.0), normal), v(-0.1, 0.5, 0.0));
    assert_eq!(Vec3::towards(v(0.1, 0.0, 0.0), normal), v(-0.1, 0.0, 0.0));
}

#[test]
fn points_of_a_cube_by_fractions() {
    assert_eq!(
        Vec3::in_range(fx(-1.0), fx(1.0), v(0.0, 0.5, 0.75)),
        v(-1.0, 0.0, 0.5)
    );
}

#[test]
fn refract_straight_on_does_not_bend_at_any_ratio() {
    for normal in [v(1.0, 0.0, 0.0), v(0.0, -1.0, 0.0), v(0.0, 0.0, 1.0)] {
        assert_eq!(normal.length_squared(), Fixed::one());
        for ratio in [0.25, 0.5, 1.0, 1.5, 2.4, 100.0] {
            assert_eq!(refract(&normal.neg(), &normal, fx(ratio)), normal.neg());
        }
    }
}

#[test]
fn points_drawn_in_the_sphere_and_the_disk_are_points_of_the_cube() {
    // a point of the cube at fractions of [0, 1) has components -1 + 2 u
    let on_grid = |c: Fixed| c.raw() >= -SCALE && c.raw() < SCALE && (c.raw() + SCALE) % 2 == 0;
    let mut seen = Vec::new();
    for _ in 0..500 {
        let s = Vec3::random_in_unit_sphere();
        assert!(on_grid(s.0) && on_grid(s.1) && on_grid(s.2));
        assert!(s.length_squared() < Fixed::one());
        let d = Vec3::random_in_unit_disk();
        assert!(on_grid(d.0) && on_grid(d.1));
        assert_eq!(d.2, Fixed::zero());
        assert!(d.length_squared() < Fixed::one());
        seen.push(s);
        seen.push(d);
    }
    seen.dedup();
    assert!(seen.len() > 990);
    // the middle of the cube is its point at the fractions one half
    let half = Fixed::from_ratio(1, 2);
    assert_eq!(lerp(fx(-1.0), fx(1.0), half), Fixed::zero());
}
