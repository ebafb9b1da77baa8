//! The intersection of a ray with a sphere, with an axis-aligned rectangle
//! and with a homogeneous medium between two boundary crossings.

use vstd::prelude::*;
use crate::aabb::AABB;
use crate::fixed::Fixed;
use crate::material::Material;
use crate::math::{clamp, dot, lemma_clamp_fixed, pi, spec_clamp, spec_dot, Point3, Vec3};
use crate::ray::{Ray, RayHit};

verus! {

/// The numerator of the margin by which a box exceeds a rectangle across its
/// plane, and by which the search for the far side of a medium starts behind
/// the near side: a ten-thousandth.
pub const MARGIN_RAW: i64 = 1_678;

/// The surface coordinates of the point `p` of the unit sphere:
/// `u = 1 - (atan2(z, x) + pi) / (2 pi)` and `v = (asin(y) + pi / 2) / pi`.
pub open spec fn spec_get_sphere_uv(p: &Vec3) -> (Fixed, Fixed) {
    let phi = p.2.atan2(p.0);
    let theta = p.1.asin();
    (
        Fixed::from_int(1).sub(phi.add(pi()).div(Fixed::from_int(2).mul(pi()))),
        theta.add(pi().div(Fixed::from_int(2))).div(pi()),
    )
}

/// The surface coordinates of the point `p` of the unit sphere.
#[verifier::when_used_as_spec(spec_get_sphere_uv)]
pub fn get_sphere_uv(p: &Vec3) -> (r: (Fixed, Fixed))
    ensures
        r == spec_get_sphere_uv(p),
{
    let phi = p.2.atan2(p.0);
    let theta = p.1.asin();
    let u = Fixed::from_int(1).sub(phi.add(pi()).div(Fixed::from_int(2).mul(pi())));
    let v = theta.add(pi().div(Fixed::from_int(2))).div(pi());
    (u, v)
}

/// The record of `ray` meeting the sphere around `center` at the parameter
/// `distance`: the outward normal is the offset of the point from the centre
/// over the radius, and the surface coordinates are those of that normal.
pub open spec fn spec_sphere_hit_at<'a>(
    center: Point3,
    radius: Fixed,
    material: &'a Material,
    ray: &Ray,
    distance: Fixed,
) -> RayHit<'a> {
    let point = ray.at(distance);
    let outward_normal = point.sub(center).div(radius);
    RayHit::new(
        ray,
        point,
        distance,
        material,
        outward_normal,
        spec_get_sphere_uv(&outward_normal),
    )
}

/// A quarter of the discriminant of `|O + t D - C|² = r²` in `t`:
/// `(oc . D)² - |D|² (|oc|² - r²)` with `oc = O - C`.
pub open spec fn spec_sphere_discriminant(center: Point3, radius: Fixed, ray: &Ray) -> Fixed {
    let oc = ray.orig.sub(center);
    let a = ray.dir.length_squared();
    let half_b = spec_dot(&oc, &ray.dir);
    let c = oc.length_squared().sub(radius.mul(radius));
    half_b.mul(half_b).sub(a.mul(c))
}

/// The root of `|O + t D - C|² = r²` on the near side (`far` false) or the
/// far side of the sphere: `(-(oc . D) -+ sqrt(discriminant)) / |D|²`.
pub open spec fn spec_sphere_root(center: Point3, radius: Fixed, ray: &Ray, far: bool) -> Fixed {
    let oc = ray.orig.sub(center);
    let a = ray.dir.length_squared();
    let half_b = spec_dot(&oc, &ray.dir);
    let root = spec_sphere_discriminant(center, radius, ray).sqrt();
    if far {
        half_b.neg().add(root).div(a)
    } else {
        half_b.neg().sub(root).div(a)
    }
}

/// Where `ray` meets the sphere of radius `radius` around `center` within
/// `(t_min, t_max)`: nowhere unless the discriminant is positive; else at the
/// near root where that lies strictly inside the interval, else at the far
/// root where that does, else nowhere.
pub open spec fn spec_sphere_hit<'a>(
    center: Point3,
    radius: Fixed,
    material: &'a Material,
    ray: &Ray,
    t_min: Fixed,
    t_max: Fixed,
) -> Option<RayHit<'a>> {
    let alpha = spec_sphere_root(center, radius, ray, false);
    let beta = spec_sphere_root(center, radius, ray, true);
    if spec_sphere_discriminant(center, radius, ray).raw <= 0 {
        None
    } else if t_min.raw < alpha.raw < t_max.raw {
        Some(spec_sphere_hit_at(center, radius, material, ray, alpha))
    } else if t_min.raw < beta.raw < t_max.raw {
        Some(spec_sphere_hit_at(center, radius, material, ray, beta))
    } else {
        None
    }
}

fn sphere_hit_at<'a>(
    center: Point3,
    radius: Fixed,
    material: &'a Material,
    ray: &Ray,
    distance: Fixed,
) -> (r: RayHit<'a>)
    ensures
        r == spec_sphere_hit_at(center, radius, material, ray, distance),
{
    let point = ray.at(distance);
    let outward_normal = point.sub(center).div(radius);
    RayHit::new(ray, point, distance, material, outward_normal, get_sphere_uv(&outward_normal))
}

/// Where `ray` meets the sphere of radius `radius` around `center` within
/// `(t_min, t_max)`.
pub fn sphere_hit<'a>(
    center: Point3,
    radius: Fixed,
    material: &'a Material,
    ray: &Ray,
    t_min: Fixed,
    t_max: Fixed,
) -> (r: Option<RayHit<'a>>)
    ensures
        r == spec_sphere_hit(center, radius, material, ray, t_min, t_max),
{
    let oc = ray.orig.sub(center);
    let a = ray.dir.length_squared();
    let half_b = dot(&oc, &ray.dir);
    let c = oc.length_squared().sub(radius.mul(radius));
    let discriminant = half_b.mul(half_b).sub(a.mul(c));
    if discriminant.raw > 0 {
        let root = discriminant.sqrt();
        let alpha = half_b.neg().sub(root).div(a);
        if alpha.raw < t_max.raw && alpha.raw > t_min.raw {
            return Some(sphere_hit_at(center, radius, material, ray, alpha));
        }
        let beta = half_b.neg().add(root).div(a);
        if beta.raw < t_max.raw && beta.raw > t_min.raw {
            return Some(sphere_hit_at(center, radius, material, ray, beta));
        }
    }
    None
}

/// The box of the sphere of radius `radius` around `center`: the centre less
/// and plus the radius on each axis.
pub open spec fn spec_sphere_box(center: Point3, radius: Fixed) -> AABB {
    AABB {
        min: center.sub(Vec3(radius, radius, radius)),
        max: center.add(Vec3(radius, radius, radius)),
    }
}

/// The box of the sphere of radius `radius` around `center`.
#[verifier::when_used_as_spec(spec_sphere_box)]
pub fn sphere_box(center: Point3, radius: Fixed) -> (r: AABB)
    ensures
        r == spec_sphere_box(center, radius),
{
    AABB::new(
        center.sub(Vec3::new(radius, radius, radius)),
        center.add(Vec3::new(radius, radius, radius)),
    )
}

/// The centre at the moment `time` of a sphere that moves evenly from
/// `centers.0` at the moment `times.0` to `centers.1` at the moment `times.1`.
pub open spec fn spec_moving_center(
    centers: (Point3, Point3),
    times: (Fixed, Fixed),
    time: Fixed,
) -> Point3 {
    centers.0.add(centers.1.sub(centers.0).scale(time.sub(times.0).div(times.1.sub(times.0))))
}

/// The centre of a moving sphere at the moment `time`.
#[verifier::when_used_as_spec(spec_moving_center)]
pub fn moving_center(centers: (Point3, Point3), times: (Fixed, Fixed), time: Fixed) -> (r: Point3)
    ensures
        r == spec_moving_center(centers, times, time),
{
    centers.0.add(centers.1.sub(centers.0).scale(time.sub(times.0).div(times.1.sub(times.0))))
}

/// The unit vector along `axis`.
pub open spec fn spec_axis_unit(axis: i32) -> Vec3 {
    Vec3::spec_zero().spec_with(axis, Fixed::from_int(1))
}

/// The unit vector along `axis`.
#[verifier::when_used_as_spec(spec_axis_unit)]
pub fn axis_unit(axis: i32) -> (r: Vec3)
    requires
        0 <= axis < 3,
    ensures
        r == spec_axis_unit(axis),
{
    let mut unit = Vec3::black();
    unit.index_mut(axis, Fixed::from_int(1));
    unit
}

/// A rectangle in a plane across one axis: it lies at `offset` on the axis
/// `normal_axis` and spans `first` on the axis `first_axis` and `second` on
/// the axis `second_axis`.
#[derive(Clone, Copy, Debug)]
pub struct AxisRect {
    pub first_axis: i32,
    pub second_axis: i32,
    pub normal_axis: i32,
    pub first: (Fixed, Fixed),
    pub second: (Fixed, Fixed),
    pub offset: Fixed,
}

impl AxisRect {
    /// Whether the three axes are the axes 0, 1 and 2 in some order.
    pub open spec fn is_valid(&self) -> bool {
        &&& 0 <= self.first_axis < 3
        &&& 0 <= self.second_axis < 3
        &&& 0 <= self.normal_axis < 3
        &&& self.first_axis != self.second_axis
        &&& self.first_axis != self.normal_axis
        &&& self.second_axis != self.normal_axis
    }

    /// The rectangle across the z axis that spans `x` and `y` at the height `k`.
    pub open spec fn spec_xy(x: (Fixed, Fixed), y: (Fixed, Fixed), k: Fixed) -> AxisRect {
        AxisRect { first_axis: 0, second_axis: 1, normal_axis: 2, first: x, second: y, offset: k }
    }

    /// The rectangle across the y axis that spans `x` and `z` at the height `k`.
    pub open spec fn spec_xz(x: (Fixed, Fixed), z: (Fixed, Fixed), k: Fixed) -> AxisRect {
        AxisRect { first_axis: 0, second_axis: 2, normal_axis: 1, first: x, second: z, offset: k }
    }

    /// The rectangle across the x axis that spans `y` and `z` at the height `k`.
    pub open spec fn spec_yz(y: (Fixed, Fixed), z: (Fixed, Fixed), k: Fixed) -> AxisRect {
        AxisRect { first_axis: 1, second_axis: 2, normal_axis: 0, first: y, second: z, offset: k }
    }

    /// The parameter at which `ray` crosses the plane of the rectangle:
    /// `(offset - origin) / direction` on the normal axis.
    pub open spec fn spec_crossing(&self, ray: &Ray) -> Fixed {
        self.offset.sub(ray.orig.index(self.normal_axis)).div(ray.dir.index(self.normal_axis))
    }

    /// Where `ray` meets the rectangle within `[t_min, t_max]`: at the
    /// crossing of its plane, if that lies within the interval and the point
    /// there within the two spans. The surface coordinates are the fractions
    /// of the spans at the point, and the outward normal is the unit vector
    /// along the normal axis.
    pub open spec fn spec_hit<'a>(
        &self,
        material: &'a Material,
        ray: &Ray,
        t_min: Fixed,
        t_max: Fixed,
    ) -> Option<RayHit<'a>> {
        let t = self.spec_crossing(ray);
        let a = ray.orig.index(self.first_axis).add(t.mul(ray.dir.index(self.first_axis)));
        let b = ray.orig.index(self.second_axis).add(t.mul(ray.dir.index(self.second_axis)));
        if t.raw < t_min.raw || t.raw > t_max.raw {
            None
        } else if a.raw < self.first.0.raw || a.raw > self.first.1.raw || b.raw
            < self.second.0.raw || b.raw > self.second.1.raw {
            None
        } else {
            Some(
                RayHit::new(
                    ray,
                    ray.at(t),
                    t,
                    material,
                    spec_axis_unit(self.normal_axis),
                    (
                        a.sub(self.first.0).div(self.first.1.sub(self.first.0)),
                        b.sub(self.second.0).div(self.second.1.sub(self.second.0)),
                    ),
                ),
            )
        }
    }

    /// The box of the rectangle: its two spans, and a ten-thousandth to
    /// either side of its plane.
    pub open spec fn spec_bounding_box(&self) -> AABB {
        let margin = Fixed { raw: MARGIN_RAW };
        AABB {
            min: Vec3::spec_zero().spec_with(self.first_axis, self.first.0).spec_with(
                self.second_axis,
                self.second.0,
            ).spec_with(self.normal_axis, self.offset.sub(margin)),
            max: Vec3::spec_zero().spec_with(self.first_axis, self.first.1).spec_with(
                self.second_axis,
                self.second.1,
            ).spec_with(self.normal_axis, self.offset.add(margin)),
        }
    }

    /// The rectangle across the z axis that spans `x` and `y` at the height `k`.
    #[verifier::when_used_as_spec(spec_xy)]
    pub fn xy(x: (Fixed, Fixed), y: (Fixed, Fixed), k: Fixed) -> (r: AxisRect)
        ensures
            r == AxisRect::spec_xy(x, y, k),
            r.is_valid(),
    {
        AxisRect { first_axis: 0, second_axis: 1, normal_axis: 2, first: x, second: y, offset: k }
    }

    /// The rectangle across the y axis that spans `x` and `z` at the height `k`.
    #[verifier::when_used_as_spec(spec_xz)]
    pub fn xz(x: (Fixed, Fixed), z: (Fixed, Fixed), k: Fixed) -> (r: AxisRect)
        ensures
            r == AxisRect::spec_xz(x, z, k),
            r.is_valid(),
    {
        AxisRect { first_axis: 0, second_axis: 2, normal_axis: 1, first: x, second: z, offset: k }
    }

    /// The rectangle across the x axis that spans `y` and `z` at the height `k`.
    #[verifier::when_used_as_spec(spec_yz)]
    pub fn yz(y: (Fixed, Fixed), z: (Fixed, Fixed), k: Fixed) -> (r: AxisRect)
        ensures
            r == AxisRect::spec_yz(y, z, k),
            r.is_valid(),
    {
        AxisRect { first_axis: 1, second_axis: 2, normal_axis: 0, first: y, second: z, offset: k }
    }

    /// Where `ray` meets the rectangle within `[t_min, t_max]`.
    pub fn hit<'a>(&self, material: &'a Material, ray: &Ray, t_min: Fixed, t_max: Fixed) -> (r:
        Option<RayHit<'a>>)
        requires
            self.is_valid(),
        ensures
            r == self.spec_hit(material, ray, t_min, t_max),
    {
        let t = self.offset.sub(ray.orig.index(self.normal_axis)).div(
            ray.dir.index(self.normal_axis),
        );
        if t.raw < t_min.raw || t.raw > t_max.raw {
            return None;
        }
        let a = ray.orig.index(self.first_axis).add(t.mul(ray.dir.index(self.first_axis)));
        let b = ray.orig.index(self.second_axis).add(t.mul(ray.dir.index(self.second_axis)));
        if a.raw < self.first.0.raw || a.raw > self.first.1.raw || b.raw < self.second.0.raw
            || b.raw > self.second.1.raw {
            return None;
        }
        let u = a.sub(self.first.0).div(self.first.1.sub(self.first.0));
        let v = b.sub(self.second.0).div(self.second.1.sub(self.second.0));
        let outward_normal = axis_unit(self.normal_axis);
        Some(RayHit::new(ray, ray.at(t), t, material, outward_normal, (u, v)))
    }

    /// The box of the rectangle.
    #[verifier::when_used_as_spec(spec_bounding_box)]
    pub fn bounding_box(&self) -> (r: AABB)
        requires
            self.is_valid(),
        ensures
            r == self.spec_bounding_box(),
    {
        let margin = Fixed { raw: MARGIN_RAW };
        let mut min = Vec3::black();
        min.index_mut(self.first_axis, self.first.0);
        min.index_mut(self.second_axis, self.second.0);
        min.index_mut(self.normal_axis, self.offset.sub(margin));
        let mut max = Vec3::black();
        max.index_mut(self.first_axis, self.first.1);
        max.index_mut(self.second_axis, self.second.1);
        max.index_mut(self.normal_axis, self.offset.add(margin));
        AABB::new(min, max)
    }
}

/// The length of the free path in a medium of density `density` at the
/// random number `u`: `-ln(u) / density`.
pub open spec fn spec_free_path(density: Fixed, u: Fixed) -> Fixed {
    Fixed::from_int(1).neg().div(density).mul(u.ln())
}

/// The length of the free path in a medium of density `density` at the
/// random number `u`.
#[verifier::when_used_as_spec(spec_free_path)]
pub fn free_path(density: Fixed, u: Fixed) -> (r: Fixed)
    ensures
        r == spec_free_path(density, u),
{
    Fixed::from_int(1).neg().div(density).mul(u.ln())
}

/// Where `ray` scatters within `(t_min, t_max)` in a homogeneous medium that
/// it enters at the parameter `entry` and leaves at `exit`, for the random
/// number `u`. The entry is raised to `t_min` and to zero, and the exit
/// lowered to `t_max`; if nothing is left between them the ray scatters
/// nowhere. Else it scatters after the free path [`spec_free_path`], measured
/// along the ray from the entry, unless that is longer than the way to the
/// exit. The record carries the zero vector as its normal and zero surface
/// coordinates: a medium has no surface.
pub open spec fn spec_medium_hit<'a>(
    ray: &Ray,
    t_min: Fixed,
    t_max: Fixed,
    entry: Fixed,
    exit: Fixed,
    density: Fixed,
    material: &'a Material,
    u: Fixed,
) -> Option<RayHit<'a>> {
    let t1 = spec_clamp(entry, t_min, entry);
    let t2 = spec_clamp(exit, exit, t_max);
    let start = spec_clamp(t1, Fixed::from_int(0), t1);
    let ray_length = ray.dir.length();
    let distance_inside_boundary = t2.sub(start).mul(ray_length);
    let hit_distance = spec_free_path(density, u);
    let t = start.add(hit_distance.div(ray_length));
    if t1.raw >= t2.raw {
        None
    } else if hit_distance.raw > distance_inside_boundary.raw {
        None
    } else {
        Some(
            RayHit::new(
                ray,
                ray.at(t),
                t,
                material,
                Vec3::spec_zero(),
                (Fixed::from_int(0), Fixed::from_int(0)),
            ),
        )
    }
}

/// Where `ray` scatters within `(t_min, t_max)` in a homogeneous medium that
/// it enters at `entry` and leaves at `exit`, for the random number `u`.
pub fn medium_hit<'a>(
    ray: &Ray,
    t_min: Fixed,
    t_max: Fixed,
    entry: Fixed,
    exit: Fixed,
    density: Fixed,
    material: &'a Material,
    u: Fixed,
) -> (r: Option<RayHit<'a>>)
    ensures
        r == spec_medium_hit(ray, t_min, t_max, entry, exit, density, material, u),
{
    proof {
        lemma_clamp_fixed(entry, t_min, entry);
        lemma_clamp_fixed(exit, exit, t_max);
    }
    let t1 = clamp(entry, t_min, entry);
    let t2 = clamp(exit, exit, t_max);
    if t1.raw >= t2.raw {
        return None;
    }
    proof {
        lemma_clamp_fixed(t1, Fixed::from_int(0), t1);
    }
    let t1 = clamp(t1, Fixed::from_int(0), t1);
    let ray_length = ray.dir.length();
    let distance_inside_boundary = t2.sub(t1).mul(ray_length);
    let hit_distance = free_path(density, u);
    if hit_distance.raw > distance_inside_boundary.raw {
        return None;
    }
    let t = t1.add(hit_distance.div(ray_length));
    let normal = Vec3::black();
    let uv = (Fixed::from_int(0), Fixed::from_int(0));
    Some(RayHit::new(ray, ray.at(t), t, material, normal, uv))
}

} // verus!
