//! The camera: where the rays of a picture start and where they point.

use vstd::prelude::*;
use crate::fixed::Fixed;
use crate::math::{
    cross, degrees_to_radians, is_unit, lerp, normalize, random_double, spec_cross,
    spec_normalize, Point3, Vec3,
};
use crate::ray::Ray;

verus! {

/// A camera with a thin lens and a shutter.
#[derive(Clone, Copy, Debug)]
pub struct Camera {
    pub origin: Point3,
    pub lower_left_corner: Point3,
    pub horizontal: Vec3,
    pub vertical: Vec3,
    pub u: Vec3,
    pub v: Vec3,
    pub w: Vec3,
    pub lens_radius: Fixed,
    pub shutter_time: (Fixed, Fixed),
}

impl Camera {
    /// The camera at `look_from` that looks at `look_at` with `up` upwards.
    ///
    /// Its frame is `w`, the unit vector from `look_at` to `look_from`; `u`,
    /// the unit vector along `up x w`; and `v = w x u`. Its plate is `2 tan(fov
    /// / 2)` high, `fov` in degrees, and `aspect_ratio` times as wide, both
    /// times `focus_distance`, and lies `focus_distance` before the camera,
    /// centred on its axis. Its lens has the radius `aperture / 2`.
    pub open spec fn spec_new(
        look_from: Point3,
        look_at: Point3,
        up: Vec3,
        fov: Fixed,
        aspect_ratio: Fixed,
        aperture: Fixed,
        focus_distance: Fixed,
        shutter_time: (Fixed, Fixed),
    ) -> Camera {
        let two = Fixed::from_int(2);
        let viewport_height = two.mul(degrees_to_radians(fov).div(two).tan());
        let viewport_width = aspect_ratio.mul(viewport_height);
        let w = spec_normalize(&look_from.sub(look_at));
        let u = spec_normalize(&spec_cross(&up, &w));
        let v = spec_cross(&w, &u);
        let horizontal = u.scale(viewport_width).scale(focus_distance);
        let vertical = v.scale(viewport_height).scale(focus_distance);
        Camera {
            origin: look_from,
            lower_left_corner: look_from.sub(horizontal.div(two)).sub(vertical.div(two)).sub(
                w.scale(focus_distance),
            ),
            horizontal,
            vertical,
            u,
            v,
            w,
            lens_radius: aperture.div(two),
            shutter_time,
        }
    }

    /// The ray through the point `(s, t)` of the plate, from the point of the
    /// lens that `lens` picks on the unit disk, at the moment `time`: it starts
    /// at the origin shifted by `lens` times the radius of the lens along `u`
    /// and `v`, and points at `lower_left_corner + s horizontal + t vertical`.
    pub open spec fn spec_ray_through(&self, s: Fixed, t: Fixed, lens: Vec3, time: Fixed) -> Ray {
        let ray_direction = lens.scale(self.lens_radius);
        let offset = self.u.scale(ray_direction.0).add(self.v.scale(ray_direction.1));
        Ray::new(
            self.origin.add(offset),
            self.lower_left_corner.add(self.horizontal.scale(s)).add(self.vertical.scale(t)).sub(
                self.origin,
            ).sub(offset),
            Some(time),
        )
    }

    /// The camera at `look_from` that looks at `look_at` with `up` upwards.
    #[verifier::when_used_as_spec(spec_new)]
    pub fn new(
        look_from: Point3,
        look_at: Point3,
        up: Vec3,
        fov: Fixed,
        aspect_ratio: Fixed,
        aperture: Fixed,
        focus_distance: Fixed,
        shutter_time: (Fixed, Fixed),
    ) -> (r: Camera)
        ensures
            r == Camera::spec_new(
                look_from,
                look_at,
                up,
                fov,
                aspect_ratio,
                aperture,
                focus_distance,
                shutter_time,
            ),
    {
        let two = Fixed::from_int(2);
        let theta = degrees_to_radians(fov);
        let h = theta.div(two).tan();
        let viewport_height = two.mul(h);
        let viewport_width = aspect_ratio.mul(viewport_height);
        let w = normalize(&look_from.sub(look_at));
        let u = normalize(&cross(&up, &w));
        let v = cross(&w, &u);
        let origin = look_from;
        let horizontal = u.scale(viewport_width).scale(focus_distance);
        let vertical = v.scale(viewport_height).scale(focus_distance);
        let lower_left_corner = origin.sub(horizontal.div(two)).sub(vertical.div(two)).sub(
            w.scale(focus_distance),
        );
        let lens_radius = aperture.div(two);
        Camera {
            origin,
            lower_left_corner,
            horizontal,
            vertical,
            u,
            v,
            w,
            lens_radius,
            shutter_time,
        }
    }

    /// The ray through the point `(s, t)` of the plate, from the point of the
    /// lens that `lens` picks on the unit disk, at the moment `time`.
    #[verifier::when_used_as_spec(spec_ray_through)]
    pub fn ray_through(&self, s: Fixed, t: Fixed, lens: Vec3, time: Fixed) -> (r: Ray)
        ensures
            r == self.spec_ray_through(s, t, lens, time),
    {
        let ray_direction = lens.scale(self.lens_radius);
        let offset = self.u.scale(ray_direction.0).add(self.v.scale(ray_direction.1));
        Ray::new(
            self.origin.add(offset),
            self.lower_left_corner.add(self.horizontal.scale(s)).add(self.vertical.scale(t)).sub(
                self.origin,
            ).sub(offset),
            Some(time),
        )
    }

    /// Whether `ray` is a ray that the camera may send through the point
    /// `(s, t)` of the plate: [`Camera::ray_through`] from a point strictly
    /// inside the unit disk of the lens, at a moment while the shutter is open.
    pub open spec fn is_ray(&self, s: Fixed, t: Fixed, ray: Ray) -> bool {
        exists|lens: Vec3, moment: Fixed|
            lens.in_unit_sphere() && lens.2.raw == 0 && is_unit(moment) && ray
                == #[trigger] self.spec_ray_through(
                s,
                t,
                lens,
                lerp(self.shutter_time.0, self.shutter_time.1, moment),
            )
    }

    /// A ray through the point `(s, t)` of the plate: [`Camera::ray_through`]
    /// from a random point of the lens, at a random moment while the shutter
    /// is open.
    pub fn get_ray(&self, s: Fixed, t: Fixed) -> (r: Ray)
        ensures
            self.is_ray(s, t, r),
    {
        let lens = Vec3::random_in_unit_disk();
        let moment = random_double();
        let time = lerp(self.shutter_time.0, self.shutter_time.1, moment);
        let r = self.ray_through(s, t, lens, time);
        assert(r == self.spec_ray_through(
            s,
            t,
            lens,
            lerp(self.shutter_time.0, self.shutter_time.1, moment),
        ));
        r
    }
}

} // verus!
