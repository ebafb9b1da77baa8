use pathtracer::aabb::{axis_entry, axis_exit, surrounding_box, AABB};
use pathtracer::fixed::{Fixed, SCALE};
use pathtracer::math::Vec3;
use pathtracer::ray::Ray;

fn fx(x: f64) -> Fixed {
    Fixed::from_raw((x * SCALE as f64).round() as i64)
}

fn v(x: f64, y: f64, z: f64) -> Vec3 {
    Vec3::new(fx(x), fx(y), fx(z))
}

fn unit_box() -> AABB {
    AABB::new(v(-1.0, -1.0, -1.0), v(1.0, 1.0, 1.0))
}

fn ray(origin: Vec3, direction: Vec3) -> Ray {
    Ray::new(origin, direction, None)
}

fn contains(outer: &AABB, inner: &AABB) -> bool {
    outer.min().0 <= inner.min().0
        && outer.min().1 <= inner.min().1
        && outer.min().2 <= inner.min().2
        && inner.max().0 <= outer.max().0
        && inner.max().1 <= outer.max().1
        && inner.max().2 <= outer.max().2
}

#[test]
fn surrounding_box_spans_both_boxes() {
    let a = AABB::new(v(0.0, 0.0, 0.0), v(1.0, 2.0, 3.0));
    let b = AABB::new(v(-1.0, 1.0, 2.0), v(0.0, 5.0, 2.0));
    let s = surrounding_box(&a, &b);
    assert_eq!(*s.min(), v(-1.0, 0.0, 0.0));
    assert_eq!(*s.max(), v(1.0, 5.0, 3.0));
    assert!(contains(&s, &a));
    assert!(contains(&s, &b));
}

#[test]
fn surrounding_box_is_the_least_box_around_both() {
    let a = AABB::new(v(0.0, 0.0, 0.0), v(1.0, 2.0, 3.0));
    let b = AABB::new(v(-1.0, 1.0, 2.0), v(0.0, 5.0, 2.0));
    let s = surrounding_box(&a, &b);
    // a box that is smaller than the surrounding box on one side misses one of the two
    let step = Fixed::from_raw(1);
    let mut tighter = s;
    tighter.min.0 = s.min.0.add(step);
    assert!(!(contains(&tighter, &a) && contains(&tighter, &b)));
    let mut tighter = s;
    tighter.max.1 = s.max.1.sub(step);
    assert!(!(contains(&tighter, &a) && contains(&tighter, &b)));
    let mut tighter = s;
    tighter.max.2 = s.max.2.sub(step);
    assert!(!(contains(&tighter, &a) && contains(&tighter, &b)));
    // and a box around both is a box around the surrounding box
    let wide = AABB::new(v(-2.0, -1.0, 0.0), v(1.0, 6.0, 3.5));
    assert!(contains(&wide, &a) && contains(&wide, &b) && contains(&wide, &s));
}

#[test]
fn surrounding_box_of_a_box_with_itself() {
    let a = AABB::new(v(0.0, 0.0, 0.0), v(1.0, 2.0, 3.0));
    assert_eq!(surrounding_box(&a, &a), a);
    assert_eq!(AABB::default(), AABB::new(v(0.0, 0.0, 0.0), v(0.0, 0.0, 0.0)));
}

#[test]
fn a_ray_through_the_box_hits_it() {
    let b = unit_box();
    let r = ray(v(-5.0, 0.0, 0.0), v(1.0, 0.0, 0.0));
    assert!(b.hit(&r, fx(0.0), Fixed::infinity()));
    // the ray is inside the box from 4 to 6
    assert!(b.hit(&r, fx(0.0), fx(4.5)));
    assert!(!b.hit(&r, fx(0.0), fx(4.0)));
    assert!(b.hit(&r, fx(5.5), fx(100.0)));
    assert!(!b.hit(&r, fx(6.0), fx(100.0)));
    assert!(!b.hit(&r, fx(7.0), fx(100.0)));
}

#[test]
fn a_ray_against_the_axes_hits_the_box() {
    let b = unit_box();
    let r = ray(v(5.0, 5.0, 5.0), v(-1.0, -1.0, -1.0));
    assert!(b.hit(&r, fx(0.0), Fixed::infinity()));
    assert!(!b.hit(&r, fx(0.0), fx(4.0)));
    let away = ray(v(5.0, 5.0, 5.0), v(1.0, 1.0, 1.0));
    assert!(!away.dir.0.raw().is_negative());
    assert!(!b.hit(&away, fx(0.0), Fixed::infinity()));
    assert!(b.hit(&away, Fixed::neg_infinity(), Fixed::infinity()));
}

#[test]
fn a_ray_along_an_axis_hits_only_from_within_the_other_slabs() {
    let b = unit_box();
    // no motion along y and z: inside both slabs
    assert!(b.hit(&ray(v(-5.0, 0.5, -0.5), v(1.0, 0.0, 0.0)), fx(0.0), Fixed::infinity()));
    // on the face of a slab counts as inside
    assert!(b.hit(&ray(v(-5.0, 1.0, -1.0), v(1.0, 0.0, 0.0)), fx(0.0), Fixed::infinity()));
    // outside the y slab
    assert!(!b.hit(&ray(v(-5.0, 1.5, 0.0), v(1.0, 0.0, 0.0)), fx(0.0), Fixed::infinity()));
    assert!(!b.hit(&ray(v(-5.0, -1.5, 0.0), v(1.0, 0.0, 0.0)), fx(0.0), Fixed::infinity()));
    // outside the z slab
    assert!(!b.hit(&ray(v(-5.0, 0.0, 2.0), v(1.0, 0.0, 0.0)), fx(0.0), Fixed::infinity()));
    // a ray that does not move at all
    assert!(b.hit(&ray(v(0.0, 0.0, 0.0), v(0.0, 0.0, 0.0)), fx(0.0), fx(1.0)));
    assert!(!b.hit(&ray(v(0.0, 2.0, 0.0), v(0.0, 0.0, 0.0)), fx(0.0), fx(1.0)));
}

#[test]
fn the_slabs_must_overlap_one_another() {
    let b = unit_box();
    // inside the x slab from 4 to 6 and inside the y slab from 7 to 9
    let r = ray(v(-5.0, -8.0, 0.0), v(1.0, 1.0, 0.0));
    assert!(!b.hit(&r, fx(0.0), Fixed::infinity()));
    // inside the x slab from 4 to 6 and inside the y slab from 5 to 7
    let r = ray(v(-5.0, -6.0, 0.0), v(1.0, 1.0, 0.0));
    assert!(b.hit(&r, fx(0.0), Fixed::infinity()));
    assert!(b.hit(&r, fx(5.5), fx(5.75)));
    assert!(!b.hit(&r, fx(0.0), fx(5.0)));
}

#[test]
fn an_empty_interval_hits_nothing() {
    let b = unit_box();
    let r = ray(v(-5.0, 0.0, 0.0), v(1.0, 0.0, 0.0));
    assert!(!b.hit(&r, fx(5.0), fx(5.0)));
    assert!(!b.hit(&r, fx(5.5), fx(4.5)));
}

#[test]
fn entry_and_exit_of_one_slab() {
    assert_eq!(axis_entry(fx(-1.0), fx(1.0), fx(-5.0), fx(2.0)), fx(2.0));
    assert_eq!(axis_exit(fx(-1.0), fx(1.0), fx(-5.0), fx(2.0)), fx(3.0));
    assert_eq!(axis_entry(fx(-1.0), fx(1.0), fx(5.0), fx(-2.0)), fx(2.0));
    assert_eq!(axis_exit(fx(-1.0), fx(1.0), fx(5.0), fx(-2.0)), fx(3.0));
    assert_eq!(axis_entry(fx(-1.0), fx(1.0), fx(0.0), fx(0.0)), Fixed::neg_infinity());
    assert_eq!(axis_exit(fx(-1.0), fx(1.0), fx(0.0), fx(0.0)), Fixed::infinity());
    assert_eq!(axis_entry(fx(-1.0), fx(1.0), fx(3.0), fx(0.0)), Fixed::infinity());
    assert_eq!(axis_exit(fx(-1.0), fx(1.0), fx(3.0), fx(0.0)), Fixed::neg_infinity());
}

#[test]
fn a_hit_on_a_box_is_a_hit_on_every_box_around_it() {
    let inner = AABB::new(v(0.25, -0.5, 0.0), v(0.75, 0.5, 0.5));
    let outer = unit_box();
    let mut state: u64 = 12345;
    let mut next = move || {
        state = state.wrapping_mul(6364136223846793005).wrapping_add(1442695040888963407);
        ((state >> 33) as f64 / (1u64 << 31) as f64) * 2.0 - 1.0
    };
    let mut hits = 0;
    for _ in 0..2000 {
        let r = ray(
            v(3.0 * next(), 3.0 * next(), 3.0 * next()),
            v(next(), next(), next()),
        );
        if inner.hit(&r, fx(0.0), fx(50.0)) {
            hits += 1;
            assert!(outer.hit(&r, fx(0.0), fx(50.0)));
        }
    }
    assert!(hits > 10);
}
