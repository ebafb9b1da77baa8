//! Rays and the record of where a ray meets a surface.

use vstd::prelude::*;
use crate::fixed::Fixed;
use crate::material::Material;
use crate::math::{dot, spec_dot, Point3, Vec3};

verus! {

/// A half-line from `orig` along `dir` (of any length), cast at the moment `time`.
#[derive(Clone, Copy, Debug)]
pub struct Ray {
    pub orig: Point3,
    pub dir: Vec3,
    pub time: Fixed,
}

impl Ray {
    /// The ray from `orig` along `dir`, at `time` or at moment zero.
    pub open spec fn spec_new(orig: Point3, dir: Vec3, time: Option<Fixed>) -> Ray {
        Ray {
            orig,
            dir,
            time: match time {
                Some(t) => t,
                None => Fixed { raw: 0 },
            },
        }
    }

    /// The point at the parameter `t`: `orig + t dir`.
    pub open spec fn spec_at(&self, t: Fixed) -> Point3 {
        self.orig.add(self.dir.scale(t))
    }

    /// The ray from `orig` along `dir`, at `time` or at moment zero.
    #[verifier::when_used_as_spec(spec_new)]
    pub fn new(orig: Point3, dir: Vec3, time: Option<Fixed>) -> (r: Ray)
        ensures
            r == Ray::spec_new(orig, dir, time),
    {
        Ray {
            orig,
            dir,
            time: match time {
                Some(t) => t,
                None => Fixed { raw: 0 },
            },
        }
    }

    /// Where the ray starts.
    pub fn origin(&self) -> (r: &Point3)
        ensures
            *r == self.orig,
    {
        &self.orig
    }

    /// The direction of the ray, of any length.
    pub fn direction(&self) -> (r: &Point3)
        ensures
            *r == self.dir,
    {
        &self.dir
    }

    /// The moment at which the ray is cast.
    pub fn time(&self) -> (r: Fixed)
        ensures
            r == self.time,
    {
        self.time
    }

    /// The point at the parameter `t`: `orig + t dir`.
    #[verifier::when_used_as_spec(spec_at)]
    pub fn at(&self, t: Fixed) -> (r: Point3)
        ensures
            r == self.spec_at(t),
    {
        self.orig.add(self.dir.scale(t))
    }
}

/// Where a ray meets a surface: the point, the distance along the ray, the
/// material there, the normal turned against the ray, the surface coordinates
/// and whether the ray came from outside.
#[derive(Clone, Copy, Debug)]
pub struct RayHit<'a> {
    pub point: Point3,
    pub distance: Fixed,
    pub material: &'a Material,
    pub normal: Vec3,
    pub uv: (Fixed, Fixed),
    pub front_face: bool,
}

impl<'a> RayHit<'a> {
    /// The record of `ray` meeting a surface at `point`, `distance` along the
    /// ray. The ray came from outside if it runs against `outward_normal`; the
    /// recorded normal is `outward_normal` then, and its negation otherwise.
    pub open spec fn spec_new(
        ray: &Ray,
        point: Point3,
        distance: Fixed,
        material: &'a Material,
        outward_normal: Vec3,
        uv: (Fixed, Fixed),
    ) -> RayHit<'a> {
        let front_face = spec_dot(&ray.dir, &outward_normal).raw < 0;
        RayHit {
            point,
            distance,
            material,
            normal: if front_face {
                outward_normal
            } else {
                outward_normal.neg()
            },
            uv,
            front_face,
        }
    }

    /// The record of `ray` meeting a surface at `point`, `distance` along the ray.
    #[verifier::when_used_as_spec(spec_new)]
    pub fn new(
        ray: &Ray,
        point: Point3,
        distance: Fixed,
        material: &'a Material,
        outward_normal: Vec3,
        uv: (Fixed, Fixed),
    ) -> (r: RayHit<'a>)
        ensures
            r == RayHit::spec_new(ray, point, distance, material, outward_normal, uv),
    {
        let front_face = dot(&ray.dir, &outward_normal).raw < 0;
        let normal = if front_face {
            outward_normal
        } else {
            outward_normal.neg()
        };
        RayHit { point, distance, material, normal, uv, front_face }
    }

    /// The point hit.
    pub fn point(&self) -> (r: &Point3)
        ensures
            *r == self.point,
    {
        &self.point
    }

    /// The distance along the ray.
    pub fn distance(&self) -> (r: Fixed)
        ensures
            r == self.distance,
    {
        self.distance
    }

    /// The material of the surface.
    pub fn material(&self) -> (r: &'a Material)
        ensures
            r == self.material,
    {
        self.material
    }

    /// The surface normal, turned against the ray.
    pub fn normal(&self) -> (r: &Vec3)
        ensures
            *r == self.normal,
    {
        &self.normal
    }

    /// The surface coordinates.
    pub fn uv(&self) -> (r: (Fixed, Fixed))
        ensures
            r == self.uv,
    {
        self.uv
    }

    /// Whether the ray came from outside the surface.
    pub fn front_face(&self) -> (r: bool)
        ensures
            r == self.front_face,
    {
        self.front_face
    }
}

} // verus!
