use pathtracer::bvh::sort_on_axis;
use pathtracer::fixed::{Fixed, SCALE};
use pathtracer::geometry::{bounding_box_of, ray_cast, Hittable, HittableList};
use pathtracer::material::Material;
use pathtracer::math::Vec3;
use pathtracer::ray::{Ray, RayHit};
use pathtracer::texture::Texture;

fn fx(x: f64) -> Fixed {
    Fixed::from_raw((x * SCALE as f64).round() as i64)
}

fn v(x: f64, y: f64, z: f64) -> Vec3 {
    Vec3::new(fx(x), fx(y), fx(z))
}

fn tagged(tag: i32) -> Material {
    Material::Lambertian(Texture::SolidColor(Vec3::new(
        Fixed::from_int(tag),
        Fixed::zero(),
        Fixed::zero(),
    )))
}

fn tag_of(material: &Material) -> i64 {
    match material {
        Material::Lambertian(Texture::SolidColor(c)) => c.0.floor_int(),
        _ => panic!("not a tagged material"),
    }
}

fn tag_of_hit(hit: &RayHit) -> i64 {
    tag_of(hit.material())
}

fn tag_of_object(object: &Hittable) -> i64 {
    match object {
        Hittable::Sphere(_, _, material) => tag_of(material),
        Hittable::XYRect(_, _, _, material) => tag_of(material),
        _ => panic!("not a tagged object"),
    }
}

struct Lcg(u64);

impl Lcg {
    fn next(&mut self) -> f64 {
        self.0 = self.0.wrapping_mul(6364136223846793005).wrapping_add(1442695040888963407);
        (self.0 >> 11) as f64 / (1u64 << 53) as f64
    }

    fn between(&mut self, low: f64, high: f64) -> f64 {
        low + (high - low) * self.next()
    }
}

fn scene(seed: u64, count: i32) -> Vec<Hittable> {
    let mut random = Lcg(seed);
    let mut objects = Vec::new();
    for tag in 0..count {
        let center = v(
            random.between(-10.0, 10.0),
            random.between(-10.0, 10.0),
            random.between(-10.0, 10.0),
        );
        let radius = fx(random.between(0.2, 1.5));
        objects.push(Hittable::Sphere(center, radius, tagged(tag)));
    }
    objects
}

fn leaves(tree: &Hittable, tags: &mut Vec<i64>) {
    match tree {
        Hittable::BHVNode(_, left, right) => {
            leaves(left, tags);
            leaves(right, tags);
        }
        other => tags.push(tag_of_object(other)),
    }
}

fn count(tree: &Hittable) -> usize {
    let mut tags = Vec::new();
    leaves(tree, &mut tags);
    tags.len()
}

fn check_nodes(tree: &Hittable) {
    if let Hittable::BHVNode(bounds, left, right) = tree {
        let (l, r) = (bounding_box_of(left), bounding_box_of(right));
        assert_eq!(bounds.min.0, l.min.0.min(r.min.0));
        assert_eq!(bounds.min.1, l.min.1.min(r.min.1));
        assert_eq!(bounds.min.2, l.min.2.min(r.min.2));
        assert_eq!(bounds.max.0, l.max.0.max(r.max.0));
        assert_eq!(bounds.max.1, l.max.1.max(r.max.1));
        assert_eq!(bounds.max.2, l.max.2.max(r.max.2));
        let (nl, nr) = (count(left), count(right));
        assert_eq!(nl, (nl + nr) - (nl + nr) / 2);
        check_nodes(left);
        check_nodes(right);
    }
}

#[test]
fn hierarchy_finds_what_a_scan_finds() {
    let mut list = HittableList::new();
    for object in scene(7, 120) {
        list.add(object);
    }
    let mut twin = HittableList::new();
    for object in scene(7, 120) {
        twin.add(object);
    }
    let tree = twin.to_bhv(fx(0.0), fx(1.0));
    let mut random = Lcg(99);
    let mut hits = 0;
    for _ in 0..10_000 {
        let origin = v(
            random.between(-15.0, 15.0),
            random.between(-15.0, 15.0),
            random.between(-15.0, 15.0),
        );
        let direction = v(
            random.between(-1.0, 1.0),
            random.between(-1.0, 1.0),
            random.between(-1.0, 1.0),
        );
        let ray = Ray::new(origin, direction, None);
        let by_scan = list.hit(&ray, fx(0.001), Fixed::infinity());
        let by_tree = ray_cast(&tree, &ray, fx(0.001), Fixed::infinity());
        match (by_scan, by_tree) {
            (None, None) => {}
            (Some(a), Some(b)) => {
                hits += 1;
                assert_eq!(a.distance(), b.distance());
                assert_eq!(a.point(), b.point());
                assert_eq!(a.normal(), b.normal());
                assert_eq!(tag_of_hit(&a), tag_of_hit(&b));
            }
            (a, b) => panic!("scan {:?}, hierarchy {:?}", a.is_some(), b.is_some()),
        }
    }
    assert!(hits > 1000);
}

#[test]
fn hierarchy_finds_what_a_scan_finds_along_the_axes() {
    let mut list = HittableList::new();
    for object in scene(21, 60) {
        list.add(object);
    }
    let mut twin = HittableList::new();
    for object in scene(21, 60) {
        twin.add(object);
    }
    let tree = twin.to_bhv(fx(0.0), fx(1.0));
    let mut random = Lcg(5);
    let directions = [
        v(1.0, 0.0, 0.0),
        v(-1.0, 0.0, 0.0),
        v(0.0, 1.0, 0.0),
        v(0.0, -1.0, 0.0),
        v(0.0, 0.0, 1.0),
        v(0.0, 0.0, -1.0),
        v(1.0, 1.0, 0.0),
        v(0.0, -1.0, 1.0),
    ];
    let mut hits = 0;
    for _ in 0..500 {
        let origin = v(
            random.between(-12.0, 12.0),
            random.between(-12.0, 12.0),
            random.between(-12.0, 12.0),
        );
        for direction in directions {
            let ray = Ray::new(origin, direction, None);
            let by_scan = list.hit(&ray, fx(0.001), Fixed::infinity());
            let by_tree = ray_cast(&tree, &ray, fx(0.001), Fixed::infinity());
            assert_eq!(by_scan.is_some(), by_tree.is_some());
            if let (Some(a), Some(b)) = (by_scan, by_tree) {
                hits += 1;
                assert_eq!(a.distance(), b.distance());
                assert_eq!(tag_of_hit(&a), tag_of_hit(&b));
            }
        }
    }
    assert!(hits > 100);
}

#[test]
fn hierarchy_holds_every_object_once() {
    for size in [1, 2, 3, 4, 5, 8, 13, 64, 100] {
        let mut list = HittableList::new();
        for object in scene(3, size) {
            list.add(object);
        }
        let tree = list.to_bhv(fx(0.0), fx(1.0));
        let mut tags = Vec::new();
        leaves(&tree, &mut tags);
        tags.sort();
        let expected: Vec<i64> = (0..size as i64).collect();
        assert_eq!(tags, expected);
        check_nodes(&tree);
    }
}

#[test]
fn hierarchy_over_one_object_is_the_object() {
    let mut list = HittableList::new();
    list.add(Hittable::Sphere(v(1.0, 2.0, 3.0), fx(0.5), tagged(9)));
    let tree = list.to_bhv(fx(0.0), fx(1.0));
    match tree {
        Hittable::Sphere(center, radius, material) => {
            assert_eq!(center, v(1.0, 2.0, 3.0));
            assert_eq!(radius, fx(0.5));
            assert_eq!(tag_of(&material), 9);
        }
        _ => panic!("not the sphere"),
    }
}

#[test]
fn hierarchy_over_two_objects_is_one_node() {
    let mut list = HittableList::new();
    // on every axis the second sphere comes first
    list.add(Hittable::Sphere(v(5.0, 5.0, 5.0), fx(1.0), tagged(0)));
    list.add(Hittable::Sphere(v(-5.0, -5.0, -5.0), fx(1.0), tagged(1)));
    let tree = list.to_bhv(fx(0.0), fx(1.0));
    match &tree {
        Hittable::BHVNode(bounds, left, right) => {
            assert_eq!(bounds.min, v(-6.0, -6.0, -6.0));
            assert_eq!(bounds.max, v(6.0, 6.0, 6.0));
            assert_eq!(tag_of_object(left), 1);
            assert_eq!(tag_of_object(right), 0);
        }
        _ => panic!("not a node"),
    }
}

#[test]
fn hierarchy_over_three_objects_puts_the_upper_two_on_the_left() {
    let mut list = HittableList::new();
    list.add(Hittable::Sphere(v(5.0, 5.0, 5.0), fx(1.0), tagged(2)));
    list.add(Hittable::Sphere(v(-5.0, -5.0, -5.0), fx(1.0), tagged(0)));
    list.add(Hittable::Sphere(v(0.0, 0.0, 0.0), fx(1.0), tagged(1)));
    let tree = list.to_bhv(fx(0.0), fx(1.0));
    match &tree {
        Hittable::BHVNode(_, left, right) => {
            assert_eq!(tag_of_object(right), 0);
            match &**left {
                Hittable::BHVNode(bounds, lower, upper) => {
                    assert_eq!(bounds.min, v(-1.0, -1.0, -1.0));
                    assert_eq!(bounds.max, v(6.0, 6.0, 6.0));
                    assert_eq!(tag_of_object(lower), 1);
                    assert_eq!(tag_of_object(upper), 2);
                }
                _ => panic!("not a node"),
            }
        }
        _ => panic!("not a node"),
    }
}

#[test]
fn sorting_orders_by_the_lower_end_of_the_box() {
    for axis in 0..3 {
        let mut objects = scene(11, 40);
        sort_on_axis(&mut objects, axis);
        assert_eq!(objects.len(), 40);
        for pair in objects.windows(2) {
            let a = bounding_box_of(&pair[0]).min.index(axis);
            let b = bounding_box_of(&pair[1]).min.index(axis);
            assert!(a <= b);
        }
        let mut tags: Vec<i64> = objects.iter().map(tag_of_object).collect();
        tags.sort();
        let expected: Vec<i64> = (0..40).collect();
        assert_eq!(tags, expected);
    }
}

#[test]
fn sorting_keeps_the_order_of_equal_keys() {
    let mut objects = Vec::new();
    for tag in 0..6 {
        // rectangles with one lower end in x, and lower ends in y that fall
        objects.push(Hittable::XYRect(
            (fx(1.0), fx(2.0)),
            (fx(10.0 - tag as f64), fx(20.0)),
            fx(0.0),
            tagged(tag),
        ));
    }
    sort_on_axis(&mut objects, 0);
    let tags: Vec<i64> = objects.iter().map(tag_of_object).collect();
    assert_eq!(tags, vec![0, 1, 2, 3, 4, 5]);
    sort_on_axis(&mut objects, 1);
    let tags: Vec<i64> = objects.iter().map(tag_of_object).collect();
    assert_eq!(tags, vec![5, 4, 3, 2, 1, 0]);
    let mut none: Vec<Hittable> = Vec::new();
    sort_on_axis(&mut none, 2);
    assert!(none.is_empty());
}
