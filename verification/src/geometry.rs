//! The scene graph: what a ray can hit, where it hits it, and the box around it.

use vstd::prelude::*;
use crate::aabb::{spec_surrounding_box, surrounding_box, AABB};
use crate::fixed::Fixed;
use crate::material::Material;
use crate::math::{degrees_to_radians, is_unit, random_double, Point3, Vec3};
use crate::ray::{Ray, RayHit};
use crate::shapes::{
    medium_hit, moving_center, spec_medium_hit, spec_moving_center, spec_sphere_box,
    spec_sphere_hit, sphere_box, sphere_hit, AxisRect, MARGIN_RAW,
};

verus! {

/// The upper end of the interval in which to look for a hit that is nearer
/// than `before`: the distance of `before`, or `t_max` where nothing was hit.
pub open spec fn spec_nearer(before: Option<RayHit>, t_max: Fixed) -> Fixed {
    match before {
        Some(hit) => hit.distance,
        None => t_max,
    }
}

/// The later of two hits where there is one, else the earlier.
pub open spec fn spec_prefer<'a>(later: Option<RayHit<'a>>, before: Option<RayHit<'a>>) -> Option<
    RayHit<'a>,
> {
    match later {
        Some(hit) => Some(hit),
        None => before,
    }
}

/// The vector `v` turned about the y axis into the frame of a turned object:
/// `(cos x - sin z, y, sin x + cos z)`.
pub open spec fn spec_rotate_y(v: Vec3, sin: Fixed, cos: Fixed) -> Vec3 {
    Vec3(cos.mul(v.0).sub(sin.mul(v.2)), v.1, sin.mul(v.0).add(cos.mul(v.2)))
}

/// The vector `v` turned about the y axis out of the frame of a turned
/// object: `(cos x + sin z, y, -sin x + cos z)`.
pub open spec fn spec_rotate_y_back(v: Vec3, sin: Fixed, cos: Fixed) -> Vec3 {
    Vec3(cos.mul(v.0).add(sin.mul(v.2)), v.1, sin.neg().mul(v.0).add(cos.mul(v.2)))
}

/// The vector `v` turned about the y axis into the frame of a turned object.
#[verifier::when_used_as_spec(spec_rotate_y)]
pub fn rotate_y(v: Vec3, sin: Fixed, cos: Fixed) -> (r: Vec3)
    ensures
        r == spec_rotate_y(v, sin, cos),
{
    Vec3(cos.mul(v.0).sub(sin.mul(v.2)), v.1, sin.mul(v.0).add(cos.mul(v.2)))
}

/// The vector `v` turned about the y axis out of the frame of a turned object.
#[verifier::when_used_as_spec(spec_rotate_y_back)]
pub fn rotate_y_back(v: Vec3, sin: Fixed, cos: Fixed) -> (r: Vec3)
    ensures
        r == spec_rotate_y_back(v, sin, cos),
{
    Vec3(cos.mul(v.0).add(sin.mul(v.2)), v.1, sin.neg().mul(v.0).add(cos.mul(v.2)))
}

/// The box that holds nothing: from positive infinity down to negative infinity.
pub open spec fn spec_empty_box() -> AABB {
    AABB {
        min: Vec3(Fixed { raw: i64::MAX }, Fixed { raw: i64::MAX }, Fixed { raw: i64::MAX }),
        max: Vec3(Fixed { raw: i64::MIN }, Fixed { raw: i64::MIN }, Fixed { raw: i64::MIN }),
    }
}

/// The box `bounds` widened to hold the point `p`.
pub open spec fn spec_grow(bounds: AABB, p: Point3) -> AABB {
    AABB {
        min: Vec3(bounds.min.0.min(p.0), bounds.min.1.min(p.1), bounds.min.2.min(p.2)),
        max: Vec3(bounds.max.0.max(p.0), bounds.max.1.max(p.1), bounds.max.2.max(p.2)),
    }
}

/// Corner `n` of a box, for `n` from 0 to 7: the upper end on the x axis where
/// `n` is at least 4, on the y axis where `n / 2` is odd, on the z axis where
/// `n` is odd, and the lower end otherwise.
pub open spec fn spec_corner(bounds: AABB, n: int) -> Point3 {
    Vec3(
        if n / 4 == 1 {
            bounds.max.0
        } else {
            bounds.min.0
        },
        if (n / 2) % 2 == 1 {
            bounds.max.1
        } else {
            bounds.min.1
        },
        if n % 2 == 1 {
            bounds.max.2
        } else {
            bounds.min.2
        },
    )
}

/// The box around the first `n` corners of `bounds` after each is turned out
/// of the frame of a turned object.
pub open spec fn spec_rotated_corners(bounds: AABB, sin: Fixed, cos: Fixed, n: int) -> AABB
    decreases n,
{
    if n <= 0 {
        spec_empty_box()
    } else {
        spec_grow(
            spec_rotated_corners(bounds, sin, cos, n - 1),
            spec_rotate_y_back(spec_corner(bounds, n - 1), sin, cos),
        )
    }
}

/// The box around the eight corners of `bounds` after a turn by `degree`
/// degrees about the y axis.
pub open spec fn spec_rotated_box(bounds: AABB, degree: Fixed) -> AABB {
    spec_rotated_corners(
        bounds,
        degrees_to_radians(degree).sin(),
        degrees_to_radians(degree).cos(),
        8,
    )
}

/// The box around the eight corners of `bounds` after a turn by `degree`
/// degrees about the y axis.
#[verifier::when_used_as_spec(spec_rotated_box)]
pub fn rotated_box(bounds: AABB, degree: Fixed) -> (r: AABB)
    ensures
        r == spec_rotated_box(bounds, degree),
{
    let radians = degrees_to_radians(degree);
    let sin_theta = radians.sin();
    let cos_theta = radians.cos();
    let mut min = Vec3(Fixed::infinity(), Fixed::infinity(), Fixed::infinity());
    let mut max = Vec3(Fixed::neg_infinity(), Fixed::neg_infinity(), Fixed::neg_infinity());
    let mut n: i32 = 0;
    while n < 8
        invariant
            0 <= n <= 8,
            (AABB { min, max }) == spec_rotated_corners(bounds, sin_theta, cos_theta, n as int),
        decreases 8 - n,
    {
        let x = if n / 4 == 1 {
            bounds.max.0
        } else {
            bounds.min.0
        };
        let y = if (n / 2) % 2 == 1 {
            bounds.max.1
        } else {
            bounds.min.1
        };
        let z = if n % 2 == 1 {
            bounds.max.2
        } else {
            bounds.min.2
        };
        let tester = rotate_y_back(Vec3(x, y, z), sin_theta, cos_theta);
        min = Vec3(min.0.min(tester.0), min.1.min(tester.1), min.2.min(tester.2));
        max = Vec3(max.0.max(tester.0), max.1.max(tester.1), max.2.max(tester.2));
        n = n + 1;
    }
    AABB::new(min, max)
}

/// A box with its sides along the axes, of one material.
#[derive(Clone, Debug)]
pub struct Cuboid {
    pub min: Point3,
    pub max: Point3,
    pub material: Material,
}

impl Cuboid {
    /// Side `n` of the box, for `n` from 0 to 5: of the two sides across the z
    /// axis first the upper, then the lower; then likewise the two across the
    /// y axis and the two across the x axis.
    pub open spec fn spec_side(&self, n: int) -> AxisRect {
        if n == 0 {
            AxisRect::spec_xy((self.min.0, self.max.0), (self.min.1, self.max.1), self.max.2)
        } else if n == 1 {
            AxisRect::spec_xy((self.min.0, self.max.0), (self.min.1, self.max.1), self.min.2)
        } else if n == 2 {
            AxisRect::spec_xz((self.min.0, self.max.0), (self.min.2, self.max.2), self.max.1)
        } else if n == 3 {
            AxisRect::spec_xz((self.min.0, self.max.0), (self.min.2, self.max.2), self.min.1)
        } else if n == 4 {
            AxisRect::spec_yz((self.min.1, self.max.1), (self.min.2, self.max.2), self.max.0)
        } else {
            AxisRect::spec_yz((self.min.1, self.max.1), (self.min.2, self.max.2), self.min.0)
        }
    }

    /// The six sides, in the order of [`Cuboid::spec_side`].
    pub open spec fn spec_sides(&self) -> Seq<AxisRect> {
        Seq::new(6, |n: int| self.spec_side(n))
    }

    /// The nearest hit of `ray` among the first `n` sides within
    /// `[t_min, t_max]`: each side is asked for a hit no farther than the
    /// nearest so far.
    pub open spec fn spec_hit_sides<'a>(
        &'a self,
        ray: &Ray,
        t_min: Fixed,
        t_max: Fixed,
        n: int,
    ) -> Option<RayHit<'a>>
        decreases n,
    {
        if n <= 0 {
            None
        } else {
            let before = self.spec_hit_sides(ray, t_min, t_max, n - 1);
            spec_prefer(
                self.spec_side(n - 1).spec_hit(
                    &self.material,
                    ray,
                    t_min,
                    spec_nearer(before, t_max),
                ),
                before,
            )
        }
    }

    /// The nearest hit of `ray` among the six sides within `[t_min, t_max]`.
    pub open spec fn spec_hit<'a>(&'a self, ray: &Ray, t_min: Fixed, t_max: Fixed) -> Option<
        RayHit<'a>,
    > {
        self.spec_hit_sides(ray, t_min, t_max, 6)
    }

    /// The box from the corner `min` to the corner `max`, of the material `material`.
    pub fn new(min: Point3, max: Point3, material: Material) -> (r: Cuboid)
        ensures
            r == (Cuboid { min, max, material }),
    {
        Cuboid { min, max, material }
    }

    /// The lower corner.
    pub fn min(&self) -> (r: &Point3)
        ensures
            *r == self.min,
    {
        &self.min
    }

    /// The upper corner.
    pub fn max(&self) -> (r: &Point3)
        ensures
            *r == self.max,
    {
        &self.max
    }

    /// The material of the six sides.
    pub fn material(&self) -> (r: &Material)
        ensures
            *r == self.material,
    {
        &self.material
    }

    /// The six sides: of the two across the z axis first the upper, then the
    /// lower; then likewise the two across the y axis and the two across the
    /// x axis.
    pub fn sides(&self) -> (r: [AxisRect; 6])
        ensures
            r@ == self.spec_sides(),
            forall|n: int| 0 <= n < 6 ==> (#[trigger] r@[n]).is_valid(),
    {
        let min = self.min;
        let max = self.max;
        let r = [
            AxisRect::xy((min.0, max.0), (min.1, max.1), max.2),
            AxisRect::xy((min.0, max.0), (min.1, max.1), min.2),
            AxisRect::xz((min.0, max.0), (min.2, max.2), max.1),
            AxisRect::xz((min.0, max.0), (min.2, max.2), min.1),
            AxisRect::yz((min.1, max.1), (min.2, max.2), max.0),
            AxisRect::yz((min.1, max.1), (min.2, max.2), min.0),
        ];
        assert(r@ =~= self.spec_sides());
        r
    }

    /// The nearest hit of `ray` among the six sides within `[t_min, t_max]`.
    pub fn hit<'a>(&'a self, ray: &Ray, t_min: Fixed, t_max: Fixed) -> (r: Option<RayHit<'a>>)
        ensures
            r == self.spec_hit(ray, t_min, t_max),
    {
        let sides = self.sides();
        let mut closest_hit: Option<RayHit<'a>> = None;
        let mut closest_distance = t_max;
        let mut n: usize = 0;
        while n < 6
            invariant
                0 <= n <= 6,
                sides@ == self.spec_sides(),
                forall|k: int| 0 <= k < 6 ==> (#[trigger] sides@[k]).is_valid(),
                closest_hit == self.spec_hit_sides(ray, t_min, t_max, n as int),
                closest_distance == spec_nearer(closest_hit, t_max),
            decreases 6 - n,
        {
            let side = sides[n];
            assert(side == self.spec_side(n as int));
            if let Some(hit) = side.hit(&self.material, ray, t_min, closest_distance) {
                closest_distance = hit.distance;
                closest_hit = Some(hit);
            }
            n = n + 1;
        }
        closest_hit
    }
}

/// What a ray can hit.
#[derive(Debug)]
pub enum Hittable {
    /// A sphere: its centre, its radius and its material.
    Sphere(Point3, Fixed, Material),
    /// A sphere that moves evenly: its centres at two moments, its radius,
    /// its material, and the two moments.
    MovingSphere((Point3, Point3), Fixed, Material, (Fixed, Fixed)),
    /// A rectangle across the z axis: its span in x, its span in y, its height
    /// in z and its material.
    XYRect((Fixed, Fixed), (Fixed, Fixed), Fixed, Material),
    /// A rectangle across the x axis: its span in y, its span in z, its height
    /// in x and its material.
    YZRect((Fixed, Fixed), (Fixed, Fixed), Fixed, Material),
    /// A rectangle across the y axis: its span in x, its span in z, its height
    /// in y and its material.
    XZRect((Fixed, Fixed), (Fixed, Fixed), Fixed, Material),
    /// A box with its sides along the axes.
    Cube(Cuboid),
    /// A node of a bounding volume hierarchy: a box and the two subtrees in it.
    BHVNode(AABB, Box<Hittable>, Box<Hittable>),
    /// An object shifted by an offset.
    Translate(Box<Hittable>, Vec3),
    /// An object turned about the y axis by an angle in degrees.
    RotateY(Box<Hittable>, Fixed),
    /// A homogeneous medium within a boundary: the boundary, the density and
    /// the material.
    ConstantMedium(Box<Hittable>, Fixed, Material),
}

/// `ray` as seen from an object shifted by `offset`: its origin shifted back.
pub open spec fn spec_translated_ray(ray: &Ray, offset: Vec3) -> Ray {
    Ray::new(ray.orig.sub(offset), ray.dir, Some(ray.time))
}

/// A hit on a shifted object, as seen from outside: its point shifted by
/// `offset`, and nothing else changed.
pub open spec fn spec_translate_back<'a>(hit: Option<RayHit<'a>>, offset: Vec3) -> Option<
    RayHit<'a>,
> {
    match hit {
        Some(hit) => Some(
            RayHit {
                point: hit.point.add(offset),
                distance: hit.distance,
                material: hit.material,
                normal: hit.normal,
                uv: hit.uv,
                front_face: hit.front_face,
            },
        ),
        None => None,
    }
}

/// `ray` as seen from an object turned by `degree` degrees about the y axis:
/// its origin and its direction turned back.
pub open spec fn spec_rotated_ray(ray: &Ray, degree: Fixed) -> Ray {
    Ray::new(
        spec_rotate_y(ray.orig, degrees_to_radians(degree).sin(), degrees_to_radians(degree).cos()),
        spec_rotate_y(ray.dir, degrees_to_radians(degree).sin(), degrees_to_radians(degree).cos()),
        Some(ray.time),
    )
}

/// A hit on a turned object, as seen from outside: its point and its normal
/// turned by `degree` degrees about the y axis, and its distance measured
/// anew from the origin of `ray` to the turned point.
pub open spec fn spec_rotate_back<'a>(hit: Option<RayHit<'a>>, ray: &Ray, degree: Fixed) -> Option<
    RayHit<'a>,
> {
    match hit {
        Some(hit) => {
            let sin = degrees_to_radians(degree).sin();
            let cos = degrees_to_radians(degree).cos();
            let point = spec_rotate_y_back(hit.point, sin, cos);
            Some(
                RayHit {
                    point,
                    distance: point.sub(ray.orig).length(),
                    material: hit.material,
                    normal: spec_rotate_y_back(hit.normal, sin, cos),
                    uv: hit.uv,
                    front_face: hit.front_face,
                },
            )
        },
        None => None,
    }
}

/// Whether the hit of a ray on `obj` is a function of the ray: whether `obj`
/// holds no medium, which scatters at random.
pub open spec fn is_deterministic(obj: &Hittable) -> bool
    decreases obj,
{
    match obj {
        Hittable::BHVNode(_, left, right) => is_deterministic(&**left) && is_deterministic(
            &**right,
        ),
        Hittable::Translate(object, _) => is_deterministic(&**object),
        Hittable::RotateY(object, _) => is_deterministic(&**object),
        Hittable::ConstantMedium(_, _, _) => false,
        _ => true,
    }
}

/// Where `ray` meets `obj` within `(t_min, t_max)`, for an object that holds
/// no medium.
///
/// - A sphere: [`spec_sphere_hit`]; a moving sphere: the same around its
///   centre at the time of the ray.
/// - A rectangle: [`AxisRect::spec_hit`]; a box: the nearest hit among its
///   six sides.
/// - A node of a hierarchy: nothing if the ray misses the box of the node.
///   Else the left subtree is asked within `(t_min, t_max)` and the right
///   subtree within `(t_min, d)`, `d` being the distance of the left hit or
///   `t_max` without one; the right hit wins where there is one.
/// - A shifted object: the hit of the ray shifted back, with its point
///   shifted forth.
/// - A turned object: the hit of the ray turned back, turned forth.
///
/// Of a medium, and of what holds one, this function says nothing.
pub open spec fn spec_ray_cast<'a>(obj: &'a Hittable, ray: &Ray, t_min: Fixed, t_max: Fixed) -> Option<
    RayHit<'a>,
>
    decreases obj,
{
    match obj {
        Hittable::Sphere(center, radius, material) => spec_sphere_hit(
            *center,
            *radius,
            material,
            ray,
            t_min,
            t_max,
        ),
        Hittable::MovingSphere(centers, radius, material, times) => spec_sphere_hit(
            spec_moving_center(*centers, *times, ray.time),
            *radius,
            material,
            ray,
            t_min,
            t_max,
        ),
        Hittable::XYRect(x, y, k, material) => AxisRect::spec_xy(*x, *y, *k).spec_hit(
            material,
            ray,
            t_min,
            t_max,
        ),
        Hittable::XZRect(x, z, k, material) => AxisRect::spec_xz(*x, *z, *k).spec_hit(
            material,
            ray,
            t_min,
            t_max,
        ),
        Hittable::YZRect(y, z, k, material) => AxisRect::spec_yz(*y, *z, *k).spec_hit(
            material,
            ray,
            t_min,
            t_max,
        ),
        Hittable::Cube(cuboid) => cuboid.spec_hit(ray, t_min, t_max),
        Hittable::BHVNode(aabb, left, right) => {
            if !aabb.spec_hit(ray, t_min, t_max) {
                None
            } else {
                let hit_left = spec_ray_cast(&**left, ray, t_min, t_max);
                spec_prefer(
                    spec_ray_cast(&**right, ray, t_min, spec_nearer(hit_left, t_max)),
                    hit_left,
                )
            }
        },
        Hittable::Translate(object, offset) => spec_translate_back(
            spec_ray_cast(&**object, &spec_translated_ray(ray, *offset), t_min, t_max),
            *offset,
        ),
        Hittable::RotateY(object, degree) => spec_rotate_back(
            spec_ray_cast(&**object, &spec_rotated_ray(ray, *degree), t_min, t_max),
            ray,
            *degree,
        ),
        Hittable::ConstantMedium(_, _, _) => vstd::pervasive::arbitrary(),
    }
}

/// Where `ray` scatters within `(t_min, t_max)` in a medium of density
/// `density`, for the random number `u`, given where the ray crosses the
/// boundary of the medium anywhere at all (`entry`) and once more behind that
/// crossing (`exit`): nowhere unless it crosses twice; else as
/// [`spec_medium_hit`] says between the two crossings.
pub open spec fn spec_medium_between<'a>(
    entry: Option<RayHit>,
    exit: Option<RayHit>,
    density: Fixed,
    material: &'a Material,
    ray: &Ray,
    t_min: Fixed,
    t_max: Fixed,
    u: Fixed,
) -> Option<RayHit<'a>> {
    match (entry, exit) {
        (Some(hit1), Some(hit2)) => spec_medium_hit(
            ray,
            t_min,
            t_max,
            hit1.distance,
            hit2.distance,
            density,
            material,
            u,
        ),
        _ => None,
    }
}

/// Whether `hit` is a place where `ray` may meet `obj` within `(t_min, t_max)`.
///
/// - An object that is no node, no shifted or turned object and no medium
///   is met at [`spec_ray_cast`] and nowhere else.
/// - A node of a hierarchy is met nowhere if the ray misses the box of the
///   node. Else it is met where the right subtree may be met within
///   `(t_min, d)`, `d` being the distance of a place where the left subtree
///   may be met within `(t_min, t_max)`, or `t_max` without one; and at that
///   place of the left subtree where the right one is not met.
/// - A shifted object is met where the object may be met by the ray shifted
///   back, with the point shifted forth; a turned object likewise.
/// - A medium is met at [`spec_medium_between`] for some number `u` of
///   `[0, 1)`, a place where the ray may cross its boundary anywhere at all,
///   and a place where it may cross it once more behind that one.
pub open spec fn is_cast<'a>(
    obj: &'a Hittable,
    ray: &Ray,
    t_min: Fixed,
    t_max: Fixed,
    hit: Option<RayHit<'a>>,
) -> bool
    decreases obj,
{
    match obj {
        Hittable::BHVNode(aabb, left, right) => {
            if !aabb.spec_hit(ray, t_min, t_max) {
                hit is None
            } else {
                exists|hit_left: Option<RayHit<'a>>, hit_right: Option<RayHit<'a>>|
                    is_cast(&**left, ray, t_min, t_max, hit_left) && is_cast(
                        &**right,
                        ray,
                        t_min,
                        spec_nearer(hit_left, t_max),
                        hit_right,
                    ) && hit == #[trigger] spec_prefer(hit_right, hit_left)
            }
        },
        Hittable::Translate(object, offset) => exists|inner: Option<RayHit<'a>>|
            is_cast(&**object, &spec_translated_ray(ray, *offset), t_min, t_max, inner) && hit
                == #[trigger] spec_translate_back(inner, *offset),
        Hittable::RotateY(object, degree) => exists|inner: Option<RayHit<'a>>|
            is_cast(&**object, &spec_rotated_ray(ray, *degree), t_min, t_max, inner) && hit
                == #[trigger] spec_rotate_back(inner, ray, *degree),
        Hittable::ConstantMedium(boundary, density, material) => exists|
            entry: Option<RayHit<'a>>,
            exit: Option<RayHit<'a>>,
            u: Fixed,
        |
            is_unit(u) && is_cast(
                &**boundary,
                ray,
                Fixed { raw: i64::MIN },
                Fixed { raw: i64::MAX },
                entry,
            ) && (entry matches Some(hit1) ==> is_cast(
                &**boundary,
                ray,
                hit1.distance.add(Fixed { raw: MARGIN_RAW }),
                Fixed { raw: i64::MAX },
                exit,
            )) && hit == #[trigger] spec_medium_between(
                entry,
                exit,
                *density,
                material,
                ray,
                t_min,
                t_max,
                u,
            ),
        _ => hit == spec_ray_cast(obj, ray, t_min, t_max),
    }
}

/// An object that holds no medium is met at one place only, which is
/// [`spec_ray_cast`].
pub proof fn lemma_cast_without_medium<'a>(
    obj: &'a Hittable,
    ray: &Ray,
    t_min: Fixed,
    t_max: Fixed,
    hit: Option<RayHit<'a>>,
)
    requires
        is_deterministic(obj),
    ensures
        is_cast(obj, ray, t_min, t_max, hit) <==> hit == spec_ray_cast(obj, ray, t_min, t_max),
    decreases obj,
{
    match obj {
        Hittable::BHVNode(aabb, left, right) => {
            if aabb.spec_hit(ray, t_min, t_max) {
                let hit_left = spec_ray_cast(&**left, ray, t_min, t_max);
                let bound = spec_nearer(hit_left, t_max);
                let hit_right = spec_ray_cast(&**right, ray, t_min, bound);
                lemma_cast_without_medium(&**left, ray, t_min, t_max, hit_left);
                lemma_cast_without_medium(&**right, ray, t_min, bound, hit_right);
                if hit == spec_prefer(hit_right, hit_left) {
                    assert(is_cast(obj, ray, t_min, t_max, hit));
                }
                if is_cast(obj, ray, t_min, t_max, hit) {
                    let (l, r) = choose|l: Option<RayHit<'a>>, r: Option<RayHit<'a>>|
                        is_cast(&**left, ray, t_min, t_max, l) && is_cast(
                            &**right,
                            ray,
                            t_min,
                            spec_nearer(l, t_max),
                            r,
                        ) && hit == #[trigger] spec_prefer(r, l);
                    lemma_cast_without_medium(&**left, ray, t_min, t_max, l);
                    lemma_cast_without_medium(&**right, ray, t_min, bound, r);
                }
            }
        },
        Hittable::Translate(object, offset) => {
            let moved = spec_translated_ray(ray, *offset);
            let inner = spec_ray_cast(&**object, &moved, t_min, t_max);
            lemma_cast_without_medium(&**object, &moved, t_min, t_max, inner);
            if hit == spec_translate_back(inner, *offset) {
                assert(is_cast(obj, ray, t_min, t_max, hit));
            }
            if is_cast(obj, ray, t_min, t_max, hit) {
                let other = choose|other: Option<RayHit<'a>>|
                    is_cast(&**object, &moved, t_min, t_max, other) && hit
                        == #[trigger] spec_translate_back(other, *offset);
                lemma_cast_without_medium(&**object, &moved, t_min, t_max, other);
            }
        },
        Hittable::RotateY(object, degree) => {
            let turned = spec_rotated_ray(ray, *degree);
            let inner = spec_ray_cast(&**object, &turned, t_min, t_max);
            lemma_cast_without_medium(&**object, &turned, t_min, t_max, inner);
            if hit == spec_rotate_back(inner, ray, *degree) {
                assert(is_cast(obj, ray, t_min, t_max, hit));
            }
            if is_cast(obj, ray, t_min, t_max, hit) {
                let other = choose|other: Option<RayHit<'a>>|
                    is_cast(&**object, &turned, t_min, t_max, other) && hit
                        == #[trigger] spec_rotate_back(other, ray, *degree);
                lemma_cast_without_medium(&**object, &turned, t_min, t_max, other);
            }
        },
        _ => {},
    }
}

/// Where `ray` meets `obj` within `(t_min, t_max)`: a place where it may
/// meet it ([`is_cast`]), which for an object that holds no medium is
/// [`spec_ray_cast`]. A medium draws a random number of `[0, 1)` where the ray
/// crosses its boundary twice.
pub fn ray_cast<'a>(obj: &'a Hittable, ray: &Ray, t_min: Fixed, t_max: Fixed) -> (r: Option<
    RayHit<'a>,
>)
    ensures
        is_cast(obj, ray, t_min, t_max, r),
        is_deterministic(obj) ==> r == spec_ray_cast(obj, ray, t_min, t_max),
    decreases obj,
{
    match obj {
        Hittable::Sphere(center, radius, material) => sphere_hit(
            *center,
            *radius,
            material,
            ray,
            t_min,
            t_max,
        ),
        Hittable::MovingSphere(centers, radius, material, times) => {
            let center = moving_center(*centers, *times, ray.time);
            sphere_hit(center, *radius, material, ray, t_min, t_max)
        },
        Hittable::XYRect(x, y, k, material) => AxisRect::xy(*x, *y, *k).hit(
            material,
            ray,
            t_min,
            t_max,
        ),
        Hittable::XZRect(x, z, k, material) => AxisRect::xz(*x, *z, *k).hit(
            material,
            ray,
            t_min,
            t_max,
        ),
        Hittable::YZRect(y, z, k, material) => AxisRect::yz(*y, *z, *k).hit(
            material,
            ray,
            t_min,
            t_max,
        ),
        Hittable::Cube(cuboid) => cuboid.hit(ray, t_min, t_max),
        Hittable::BHVNode(aabb, left, right) => {
            if !aabb.hit(ray, t_min, t_max) {
                return None;
            }
            let hit_left = ray_cast(left, ray, t_min, t_max);
            let t = match &hit_left {
                Some(hit) => hit.distance,
                None => t_max,
            };
            let hit_right = ray_cast(right, ray, t_min, t);
            let r = if hit_right.is_some() {
                hit_right
            } else {
                hit_left
            };
            assert(r == spec_prefer(hit_right, hit_left));
            r
        },
        Hittable::Translate(object, offset) => {
            let moved_r = Ray::new(ray.orig.sub(*offset), ray.dir, Some(ray.time));
            let inner = ray_cast(object, &moved_r, t_min, t_max);
            let r = match inner {
                Some(hit) => Some(
                    RayHit {
                        point: hit.point.add(*offset),
                        distance: hit.distance,
                        material: hit.material,
                        normal: hit.normal,
                        uv: hit.uv,
                        front_face: hit.front_face,
                    },
                ),
                None => None,
            };
            assert(r == spec_translate_back(inner, *offset));
            r
        },
        Hittable::RotateY(object, degree) => {
            let radians = degrees_to_radians(*degree);
            let sin_theta = radians.sin();
            let cos_theta = radians.cos();
            let origin = rotate_y(ray.orig, sin_theta, cos_theta);
            let direction = rotate_y(ray.dir, sin_theta, cos_theta);
            let rotated_r = Ray::new(origin, direction, Some(ray.time));
            let inner = ray_cast(object, &rotated_r, t_min, t_max);
            let r = match inner {
                Some(hit) => {
                    let p = rotate_y_back(hit.point, sin_theta, cos_theta);
                    let normal = rotate_y_back(hit.normal, sin_theta, cos_theta);
                    Some(
                        RayHit {
                            point: p,
                            distance: p.sub(ray.orig).length(),
                            material: hit.material,
                            normal,
                            uv: hit.uv,
                            front_face: hit.front_face,
                        },
                    )
                },
                None => None,
            };
            assert(r == spec_rotate_back(inner, ray, *degree));
            r
        },
        Hittable::ConstantMedium(object, density, material) => {
            let zero = Fixed { raw: 0 };
            let entry = ray_cast(object, ray, Fixed::neg_infinity(), Fixed::infinity());
            match entry {
                Some(hit1) => {
                    let exit = ray_cast(
                        object,
                        ray,
                        hit1.distance.add(Fixed { raw: MARGIN_RAW }),
                        Fixed::infinity(),
                    );
                    match exit {
                        Some(hit2) => {
                            let u = random_double();
                            let r = medium_hit(
                                ray,
                                t_min,
                                t_max,
                                hit1.distance,
                                hit2.distance,
                                *density,
                                material,
                                u,
                            );
                            assert(r == spec_medium_between(
                                entry,
                                exit,
                                *density,
                                material,
                                ray,
                                t_min,
                                t_max,
                                u,
                            ));
                            r
                        },
                        None => {
                            assert(None::<RayHit<'a>> == spec_medium_between(
                                entry,
                                exit,
                                *density,
                                material,
                                ray,
                                t_min,
                                t_max,
                                zero,
                            ));
                            None
                        },
                    }
                },
                None => {
                    assert(None::<RayHit<'a>> == spec_medium_between(
                        entry,
                        entry,
                        *density,
                        material,
                        ray,
                        t_min,
                        t_max,
                        zero,
                    ));
                    None
                },
            }
        },
    }
}

/// The box around `obj`.
///
/// - A sphere: [`spec_sphere_box`]; a moving sphere: the box around its boxes
///   at its two centres.
/// - A rectangle: [`AxisRect::spec_bounding_box`]; a box: itself.
/// - A node of a hierarchy: the box of the node.
/// - A shifted object: the box of the object, shifted.
/// - A turned object: the box around the turned corners of the box of the object.
/// - A medium: the box of its boundary.
pub open spec fn spec_bounding_box(obj: &Hittable) -> AABB
    decreases obj,
{
    match obj {
        Hittable::Sphere(center, radius, _) => spec_sphere_box(*center, *radius),
        Hittable::MovingSphere(centers, radius, _, _) => spec_surrounding_box(
            &spec_sphere_box(centers.0, *radius),
            &spec_sphere_box(centers.1, *radius),
        ),
        Hittable::XYRect(x, y, k, _) => AxisRect::spec_xy(*x, *y, *k).spec_bounding_box(),
        Hittable::XZRect(x, z, k, _) => AxisRect::spec_xz(*x, *z, *k).spec_bounding_box(),
        Hittable::YZRect(y, z, k, _) => AxisRect::spec_yz(*y, *z, *k).spec_bounding_box(),
        Hittable::Cube(cuboid) => AABB { min: cuboid.min, max: cuboid.max },
        Hittable::BHVNode(aabb, _, _) => *aabb,
        Hittable::Translate(object, offset) => AABB {
            min: spec_bounding_box(&**object).min.add(*offset),
            max: spec_bounding_box(&**object).max.add(*offset),
        },
        Hittable::RotateY(object, degree) => spec_rotated_box(spec_bounding_box(&**object), *degree),
        Hittable::ConstantMedium(object, _, _) => spec_bounding_box(&**object),
    }
}

/// The box around `obj`.
pub fn bounding_box_of(obj: &Hittable) -> (r: AABB)
    ensures
        r == spec_bounding_box(obj),
    decreases obj,
{
    match obj {
        Hittable::Sphere(center, radius, _) => sphere_box(*center, *radius),
        Hittable::MovingSphere(centers, radius, _, _) => {
            let box0 = sphere_box(centers.0, *radius);
            let box1 = sphere_box(centers.1, *radius);
            surrounding_box(&box0, &box1)
        },
        Hittable::XYRect(x, y, k, _) => AxisRect::xy(*x, *y, *k).bounding_box(),
        Hittable::XZRect(x, z, k, _) => AxisRect::xz(*x, *z, *k).bounding_box(),
        Hittable::YZRect(y, z, k, _) => AxisRect::yz(*y, *z, *k).bounding_box(),
        Hittable::Cube(cuboid) => AABB::new(cuboid.min, cuboid.max),
        Hittable::BHVNode(aabb, _, _) => *aabb,
        Hittable::Translate(object, offset) => {
            let bounding_box = bounding_box_of(object);
            AABB::new(bounding_box.min.add(*offset), bounding_box.max.add(*offset))
        },
        Hittable::RotateY(object, degree) => rotated_box(bounding_box_of(object), *degree),
        Hittable::ConstantMedium(object, _, _) => bounding_box_of(object),
    }
}

/// The box around `obj`: every object has one. The two moments of the
/// exposure do not enter into it: the box of a moving sphere holds the sphere
/// at both of its own moments.
pub fn get_bounding_box(obj: &Hittable, t0: Fixed, t1: Fixed) -> (r: Option<AABB>)
    ensures
        r == Some(spec_bounding_box(obj)),
{
    Some(bounding_box_of(obj))
}

/// Whether no object of the sequence holds a medium.
pub open spec fn all_deterministic(objects: Seq<Hittable>) -> bool {
    forall|i: int| 0 <= i < objects.len() ==> is_deterministic(#[trigger] &objects[i])
}

/// The nearest hit of `ray` among `objects` within `(t_min, t_max)`, by a scan
/// from the first to the last: each object is asked for a hit no farther than
/// the nearest so far.
pub open spec fn spec_scan<'a>(objects: Seq<Hittable>, ray: &Ray, t_min: Fixed, t_max: Fixed) -> Option<
    RayHit<'a>,
>
    decreases objects.len(),
{
    if objects.len() == 0 {
        None
    } else {
        let before = spec_scan(objects.drop_last(), ray, t_min, t_max);
        spec_prefer(
            spec_ray_cast(&objects.last(), ray, t_min, spec_nearer(before, t_max)),
            before,
        )
    }
}

/// Whether `hit` is a place where `ray` may meet the nearest of `objects`
/// within `(t_min, t_max)`, by a scan from the first to the last: nowhere in
/// an empty sequence; else where the last object may be met no farther than a
/// place where the objects before it may be met, and at that place where the
/// last object is not met.
pub open spec fn is_scan<'a>(
    objects: Seq<Hittable>,
    ray: &Ray,
    t_min: Fixed,
    t_max: Fixed,
    hit: Option<RayHit<'a>>,
) -> bool
    decreases objects.len(),
{
    if objects.len() == 0 {
        hit is None
    } else {
        exists|before: Option<RayHit<'a>>, last: Option<RayHit<'a>>|
            is_scan(objects.drop_last(), ray, t_min, t_max, before) && is_cast(
                &objects.last(),
                ray,
                t_min,
                spec_nearer(before, t_max),
                last,
            ) && hit == #[trigger] spec_prefer(last, before)
    }
}

/// Objects that hold no medium are met at one place only, which is
/// [`spec_scan`].
pub proof fn lemma_scan_without_medium<'a>(
    objects: Seq<Hittable>,
    ray: &Ray,
    t_min: Fixed,
    t_max: Fixed,
    hit: Option<RayHit<'a>>,
)
    requires
        all_deterministic(objects),
    ensures
        is_scan(objects, ray, t_min, t_max, hit) <==> hit == spec_scan(objects, ray, t_min, t_max),
    decreases objects.len(),
{
    if objects.len() > 0 {
        let rest = objects.drop_last();
        assert(all_deterministic(rest)) by {
            assert forall|i: int| 0 <= i < rest.len() implies is_deterministic(
                #[trigger] &rest[i],
            ) by {
                assert(rest[i] == objects[i]);
            }
        }
        assert(is_deterministic(&objects[objects.len() - 1]));
        let before = spec_scan(rest, ray, t_min, t_max);
        let bound = spec_nearer(before, t_max);
        let last = spec_ray_cast(&objects.last(), ray, t_min, bound);
        lemma_scan_without_medium(rest, ray, t_min, t_max, before);
        lemma_cast_without_medium(&objects.last(), ray, t_min, bound, last);
        if hit == spec_prefer(last, before) {
            assert(is_scan(objects, ray, t_min, t_max, hit));
        }
        if is_scan(objects, ray, t_min, t_max, hit) {
            let (b, l) = choose|b: Option<RayHit<'a>>, l: Option<RayHit<'a>>|
                is_scan(rest, ray, t_min, t_max, b) && is_cast(
                    &objects.last(),
                    ray,
                    t_min,
                    spec_nearer(b, t_max),
                    l,
                ) && hit == #[trigger] spec_prefer(l, b);
            lemma_scan_without_medium(rest, ray, t_min, t_max, b);
            lemma_cast_without_medium(&objects.last(), ray, t_min, bound, l);
        }
    }
}

/// The box around the boxes of `objects`, from the first to the last.
pub open spec fn spec_union_box(objects: Seq<Hittable>) -> AABB
    recommends
        objects.len() > 0,
    decreases objects.len(),
{
    if objects.len() <= 1 {
        spec_bounding_box(&objects[0])
    } else {
        spec_surrounding_box(
            &spec_bounding_box(&objects.last()),
            &spec_union_box(objects.drop_last()),
        )
    }
}

/// A list of objects.
#[derive(Debug)]
pub struct HittableList {
    pub objects: Vec<Hittable>,
}

impl HittableList {
    /// The empty list.
    pub fn new() -> (r: HittableList)
        ensures
            r.objects@.len() == 0,
    {
        HittableList { objects: Vec::new() }
    }

    /// Appends `object`.
    pub fn add(&mut self, object: Hittable)
        ensures
            final(self).objects@ == old(self).objects@.push(object),
    {
        self.objects.push(object);
    }

    /// Removes every object.
    pub fn clear(&mut self)
        ensures
            final(self).objects@.len() == 0,
    {
        self.objects.clear();
    }

    /// The nearest hit of `ray` among the objects within `(t_min, t_max)`, by a
    /// scan from the first to the last ([`is_scan`]): for objects that hold no
    /// medium, [`spec_scan`].
    pub fn hit<'a>(&'a self, ray: &Ray, t_min: Fixed, t_max: Fixed) -> (r: Option<RayHit<'a>>)
        ensures
            is_scan(self.objects@, ray, t_min, t_max, r),
            all_deterministic(self.objects@) ==> r == spec_scan(self.objects@, ray, t_min, t_max),
    {
        let mut closest_hit: Option<RayHit<'a>> = None;
        let mut closest_distance = t_max;
        let mut i: usize = 0;
        assert(self.objects@.take(0).len() == 0);
        while i < self.objects.len()
            invariant
                0 <= i <= self.objects@.len(),
                closest_distance == spec_nearer(closest_hit, t_max),
                is_scan(self.objects@.take(i as int), ray, t_min, t_max, closest_hit),
                all_deterministic(self.objects@) ==> closest_hit == spec_scan(
                    self.objects@.take(i as int),
                    ray,
                    t_min,
                    t_max,
                ),
            decreases self.objects@.len() - i,
        {
            let object = &self.objects[i];
            let ghost before = closest_hit;
            proof {
                let prefix = self.objects@.take(i as int + 1);
                assert(prefix.drop_last() =~= self.objects@.take(i as int));
                assert(prefix.last() == self.objects@[i as int]);
            }
            let last = ray_cast(object, ray, t_min, closest_distance);
            if let Some(hit) = last {
                closest_distance = hit.distance;
                closest_hit = Some(hit);
            }
            assert(closest_hit == spec_prefer(last, before));
            i = i + 1;
        }
        assert(self.objects@.take(i as int) =~= self.objects@);
        closest_hit
    }

    /// The box around the boxes of the objects, or `None` for the empty list.
    pub fn bounding_box(&self, t0: Fixed, t1: Fixed) -> (r: Option<AABB>)
        ensures
            self.objects@.len() == 0 ==> r is None,
            self.objects@.len() > 0 ==> r == Some(spec_union_box(self.objects@)),
    {
        if self.objects.len() == 0 {
            return None;
        }
        let mut union_box = bounding_box_of(&self.objects[0]);
        assert(self.objects@.take(1)[0] == self.objects@[0]);
        let mut i: usize = 1;
        while i < self.objects.len()
            invariant
                1 <= i <= self.objects@.len(),
                union_box == spec_union_box(self.objects@.take(i as int)),
            decreases self.objects@.len() - i,
        {
            let x = bounding_box_of(&self.objects[i]);
            proof {
                let prefix = self.objects@.take(i as int + 1);
                assert(prefix.drop_last() =~= self.objects@.take(i as int));
                assert(prefix.last() == self.objects@[i as int]);
            }
            union_box = surrounding_box(&x, &union_box);
            i = i + 1;
        }
        assert(self.objects@.take(i as int) =~= self.objects@);
        Some(union_box)
    }
}

} // verus!
