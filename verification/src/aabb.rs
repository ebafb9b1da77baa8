//! Axis-aligned bounding boxes and the slab test of a ray against one.

use vstd::prelude::*;
use crate::fixed::{lemma_floor_div_monotone, Fixed, SCALE};
use crate::math::{Point3, Vec3};
use crate::ray::Ray;

verus! {

/// The parameter at which a ray that starts at `origin` and moves by
/// `direction` per unit enters the slab `[low, high]` of one axis. A ray that
/// does not move along the axis is inside the slab for ever (negative
/// infinity) where it starts within it, and never (positive infinity) otherwise.
pub open spec fn spec_axis_entry(low: Fixed, high: Fixed, origin: Fixed, direction: Fixed) -> Fixed {
    if direction.raw > 0 {
        low.sub(origin).div(direction)
    } else if direction.raw < 0 {
        high.sub(origin).div(direction)
    } else if low.raw <= origin.raw <= high.raw {
        Fixed { raw: i64::MIN }
    } else {
        Fixed { raw: i64::MAX }
    }
}

/// The parameter at which the ray leaves the slab `[low, high]` of one axis;
/// see [`spec_axis_entry`].
pub open spec fn spec_axis_exit(low: Fixed, high: Fixed, origin: Fixed, direction: Fixed) -> Fixed {
    if direction.raw > 0 {
        high.sub(origin).div(direction)
    } else if direction.raw < 0 {
        low.sub(origin).div(direction)
    } else if low.raw <= origin.raw <= high.raw {
        Fixed { raw: i64::MAX }
    } else {
        Fixed { raw: i64::MIN }
    }
}

/// The parameter at which the ray enters the slab `[low, high]` of one axis.
#[verifier::when_used_as_spec(spec_axis_entry)]
pub fn axis_entry(low: Fixed, high: Fixed, origin: Fixed, direction: Fixed) -> (r: Fixed)
    ensures
        r == spec_axis_entry(low, high, origin, direction),
{
    if direction.raw > 0 {
        low.sub(origin).div(direction)
    } else if direction.raw < 0 {
        high.sub(origin).div(direction)
    } else if low.raw <= origin.raw && origin.raw <= high.raw {
        Fixed::neg_infinity()
    } else {
        Fixed::infinity()
    }
}

/// The parameter at which the ray leaves the slab `[low, high]` of one axis.
#[verifier::when_used_as_spec(spec_axis_exit)]
pub fn axis_exit(low: Fixed, high: Fixed, origin: Fixed, direction: Fixed) -> (r: Fixed)
    ensures
        r == spec_axis_exit(low, high, origin, direction),
{
    if direction.raw > 0 {
        high.sub(origin).div(direction)
    } else if direction.raw < 0 {
        low.sub(origin).div(direction)
    } else if low.raw <= origin.raw && origin.raw <= high.raw {
        Fixed::infinity()
    } else {
        Fixed::neg_infinity()
    }
}

/// A box with its sides along the axes, from the corner `min` to the corner `max`.
#[derive(Clone, Copy, Debug, PartialEq, Eq, Structural)]
pub struct AABB {
    pub min: Point3,
    pub max: Point3,
}

impl Default for AABB {
    fn default() -> (r: AABB)
        ensures
            r == (AABB { min: Vec3::spec_zero(), max: Vec3::spec_zero() }),
    {
        AABB { min: Vec3::black(), max: Vec3::black() }
    }
}

impl AABB {
    /// Whether `min` is not above `max` on any axis.
    pub open spec fn is_valid(&self) -> bool {
        &&& self.min.0.raw <= self.max.0.raw
        &&& self.min.1.raw <= self.max.1.raw
        &&& self.min.2.raw <= self.max.2.raw
    }

    /// Whether `inner` lies within this box on every axis.
    pub open spec fn contains(&self, inner: &AABB) -> bool {
        &&& self.min.0.raw <= inner.min.0.raw && inner.max.0.raw <= self.max.0.raw
        &&& self.min.1.raw <= inner.min.1.raw && inner.max.1.raw <= self.max.1.raw
        &&& self.min.2.raw <= inner.min.2.raw && inner.max.2.raw <= self.max.2.raw
    }

    /// The largest of `t_min` and the parameters at which `ray` enters the
    /// three slabs of the box.
    pub open spec fn spec_entry(&self, ray: &Ray, t_min: Fixed) -> Fixed {
        t_min.max(spec_axis_entry(self.min.0, self.max.0, ray.orig.0, ray.dir.0)).max(
            spec_axis_entry(self.min.1, self.max.1, ray.orig.1, ray.dir.1),
        ).max(spec_axis_entry(self.min.2, self.max.2, ray.orig.2, ray.dir.2))
    }

    /// The smallest of `t_max` and the parameters at which `ray` leaves the
    /// three slabs of the box.
    pub open spec fn spec_exit(&self, ray: &Ray, t_max: Fixed) -> Fixed {
        t_max.min(spec_axis_exit(self.min.0, self.max.0, ray.orig.0, ray.dir.0)).min(
            spec_axis_exit(self.min.1, self.max.1, ray.orig.1, ray.dir.1),
        ).min(spec_axis_exit(self.min.2, self.max.2, ray.orig.2, ray.dir.2))
    }

    /// Whether `ray` meets the box within `(t_min, t_max)`: whether the
    /// intervals in which the ray is inside the three slabs overlap one
    /// another within `(t_min, t_max)`, which is to say that the last entry
    /// comes before the first exit.
    pub open spec fn spec_hit(&self, ray: &Ray, t_min: Fixed, t_max: Fixed) -> bool {
        self.spec_entry(ray, t_min).raw < self.spec_exit(ray, t_max).raw
    }

    /// The box from `min` to `max`.
    pub fn new(min: Point3, max: Point3) -> (r: AABB)
        ensures
            r == (AABB { min, max }),
    {
        AABB { min, max }
    }

    /// The lower corner.
    pub fn min(&self) -> (r: &Point3)
        ensures
            *r == self.min,
    {
        &self.min
    }

    /// The upper corner.
    pub fn max(&self) -> (r: &Point3)
        ensures
            *r == self.max,
    {
        &self.max
    }

    /// Whether `ray` meets the box within `(t_min, t_max)`.
    #[verifier::when_used_as_spec(spec_hit)]
    pub fn hit(&self, ray: &Ray, t_min: Fixed, t_max: Fixed) -> (r: bool)
        ensures
            r == self.spec_hit(ray, t_min, t_max),
    {
        let mut entry = t_min;
        let mut exit = t_max;
        let mut axis: i32 = 0;
        while axis < 3
            invariant
                0 <= axis <= 3,
                entry.raw < exit.raw || axis == 0,
                axis == 0 ==> entry == t_min && exit == t_max,
                axis == 1 ==> entry == t_min.max(
                    spec_axis_entry(self.min.0, self.max.0, ray.orig.0, ray.dir.0),
                ) && exit == t_max.min(
                    spec_axis_exit(self.min.0, self.max.0, ray.orig.0, ray.dir.0),
                ),
                axis == 2 ==> entry == t_min.max(
                    spec_axis_entry(self.min.0, self.max.0, ray.orig.0, ray.dir.0),
                ).max(spec_axis_entry(self.min.1, self.max.1, ray.orig.1, ray.dir.1)) && exit
                    == t_max.min(
                    spec_axis_exit(self.min.0, self.max.0, ray.orig.0, ray.dir.0),
                ).min(spec_axis_exit(self.min.1, self.max.1, ray.orig.1, ray.dir.1)),
                axis == 3 ==> entry == self.spec_entry(ray, t_min) && exit == self.spec_exit(
                    ray,
                    t_max,
                ),
            decreases 3 - axis,
        {
            let low = self.min.index(axis);
            let high = self.max.index(axis);
            let origin = ray.orig.index(axis);
            let direction = ray.dir.index(axis);
            entry = entry.max(axis_entry(low, high, origin, direction));
            exit = exit.min(axis_exit(low, high, origin, direction));
            if exit.raw <= entry.raw {
                return false;
            }
            axis = axis + 1;
        }
        true
    }
}

/// The box from the lesser of the two lower corners to the greater of the two
/// upper corners, axis by axis.
pub open spec fn spec_surrounding_box(box0: &AABB, box1: &AABB) -> AABB {
    AABB {
        min: Vec3(
            box0.min.0.min(box1.min.0),
            box0.min.1.min(box1.min.1),
            box0.min.2.min(box1.min.2),
        ),
        max: Vec3(
            box0.max.0.max(box1.max.0),
            box0.max.1.max(box1.max.1),
            box0.max.2.max(box1.max.2),
        ),
    }
}

/// The smallest box that contains both `box0` and `box1`.
#[verifier::when_used_as_spec(spec_surrounding_box)]
pub fn surrounding_box(box0: &AABB, box1: &AABB) -> (r: AABB)
    ensures
        r == spec_surrounding_box(box0, box1),
        r.contains(box0),
        r.contains(box1),
        box0.is_valid() || box1.is_valid() ==> r.is_valid(),
{
    let small = Vec3::new(
        box0.min.0.min(box1.min.0),
        box0.min.1.min(box1.min.1),
        box0.min.2.min(box1.min.2),
    );
    let big = Vec3::new(
        box0.max.0.max(box1.max.0),
        box0.max.1.max(box1.max.1),
        box0.max.2.max(box1.max.2),
    );
    AABB::new(small, big)
}

/// The surrounding box of two boxes contains both, and every box that
/// contains both contains the surrounding box: it is the least such box.
pub proof fn lemma_surrounding_box_is_least(box0: AABB, box1: AABB, other: AABB)
    ensures
        spec_surrounding_box(&box0, &box1).contains(&box0),
        spec_surrounding_box(&box0, &box1).contains(&box1),
        other.contains(&box0) && other.contains(&box1) ==> other.contains(
            &spec_surrounding_box(&box0, &box1),
        ),
{
}

/// A quotient does not fall when its dividend rises over a positive divisor,
/// and does not rise over a negative one.
pub proof fn lemma_div_monotone(a: Fixed, b: Fixed, d: Fixed)
    requires
        a.raw <= b.raw,
    ensures
        d.raw > 0 ==> a.div(d).raw <= b.div(d).raw,
        d.raw < 0 ==> a.div(d).raw >= b.div(d).raw,
{
    if d.raw != 0 {
        assert(a.raw * SCALE <= b.raw * SCALE) by (nonlinear_arith)
            requires
                a.raw <= b.raw,
                SCALE > 0,
        ;
        lemma_floor_div_monotone(a.raw * SCALE, b.raw * SCALE, d.raw as int);
    }
}

/// Along one axis, a wider slab is entered no later and left no earlier.
pub proof fn lemma_axis_interval_widens(
    outer_low: Fixed,
    outer_high: Fixed,
    inner_low: Fixed,
    inner_high: Fixed,
    origin: Fixed,
    direction: Fixed,
)
    requires
        outer_low.raw <= inner_low.raw,
        inner_high.raw <= outer_high.raw,
    ensures
        spec_axis_entry(outer_low, outer_high, origin, direction).raw <= spec_axis_entry(
            inner_low,
            inner_high,
            origin,
            direction,
        ).raw,
        spec_axis_exit(outer_low, outer_high, origin, direction).raw >= spec_axis_exit(
            inner_low,
            inner_high,
            origin,
            direction,
        ).raw,
{
    lemma_div_monotone(outer_low.sub(origin), inner_low.sub(origin), direction);
    lemma_div_monotone(inner_high.sub(origin), outer_high.sub(origin), direction);
}

/// A ray that meets a box within an interval meets every box that contains it
/// within that interval.
pub proof fn lemma_hit_of_containing_box(
    outer: AABB,
    inner: AABB,
    ray: Ray,
    t_min: Fixed,
    t_max: Fixed,
)
    requires
        outer.contains(&inner),
        inner.spec_hit(&ray, t_min, t_max),
    ensures
        outer.spec_hit(&ray, t_min, t_max),
{
    lemma_axis_interval_widens(
        outer.min.0,
        outer.max.0,
        inner.min.0,
        inner.max.0,
        ray.orig.0,
        ray.dir.0,
    );
    lemma_axis_interval_widens(
        outer.min.1,
        outer.max.1,
        inner.min.1,
        inner.max.1,
        ray.orig.1,
        ray.dir.1,
    );
    lemma_axis_interval_widens(
        outer.min.2,
        outer.max.2,
        inner.min.2,
        inner.max.2,
        ray.orig.2,
        ray.dir.2,
    );
}

} // verus!
