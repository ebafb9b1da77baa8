//! The path tracer: the light along a ray, the samples of a pixel and the
//! pixels of a picture.

use vstd::prelude::*;
use crate::camera::Camera;
use crate::fixed::{Fixed, SCALE};
use crate::geometry::{all_deterministic, is_scan, spec_scan, HittableList};
use crate::material::{emitted, is_scatter, scatter, spec_emitted};
use crate::math::{is_unit, random_double, spec_clamp, Color, Vec3};
use crate::ray::{Ray, RayHit};

verus! {

/// The numerator of the least distance at which a ray may hit anything, so
/// that it does not hit again the surface that it leaves: a thousandth.
pub const NEAR_RAW: i64 = 16_777;

/// The light that leaves a surface: what it emits, and what came in along the
/// scattered ray, attenuated, if the surface scatters at all.
pub open spec fn spec_shade(emitted: Color, scattered: Option<(Ray, Color)>, incoming: Color) -> Color {
    match scattered {
        Some((_, attenuation)) => emitted.add(attenuation.mul(incoming)),
        None => emitted,
    }
}

/// The nearest hit of `ray` in `world` from the least distance on.
pub open spec fn spec_first_hit<'a>(world: &'a HittableList, ray: &Ray) -> Option<RayHit<'a>> {
    spec_scan(world.objects@, ray, Fixed { raw: NEAR_RAW }, Fixed { raw: i64::MAX })
}

/// What a ray sees: `background` where it hits nothing, and else
/// [`spec_shade`] of what the surface emits at the hit, of how it scatters the
/// ray, and of the light that comes in along the scattered ray.
pub open spec fn spec_seen(
    background: Color,
    hit: Option<RayHit>,
    scattered: Option<(Ray, Color)>,
    incoming: Color,
) -> Color {
    match hit {
        Some(hit) => spec_shade(
            spec_emitted(hit.material, hit.uv.0, hit.uv.1, &hit.point),
            scattered,
            incoming,
        ),
        None => background,
    }
}

/// Whether `light` is a light that may arrive along `ray` against its
/// direction, followed over `depth` bounces at most.
///
/// - With no bounce left the light is black.
/// - Else it is [`spec_seen`] at a place where the ray may hit the world from
///   the least distance on ([`is_scan`]), at a way in which the surface there
///   may scatter the ray ([`is_scatter`]), and at a light that may arrive
///   along the scattered ray with one bounce less.
pub open spec fn is_light(
    ray: Ray,
    background: &Color,
    world: &HittableList,
    depth: int,
    light: Color,
) -> bool
    decreases depth,
{
    if depth <= 0 {
        light == Vec3::spec_zero()
    } else {
        exists|hit: Option<RayHit>, scattered: Option<(Ray, Color)>, incoming: Color|
            is_scan(
                world.objects@,
                &ray,
                Fixed { raw: NEAR_RAW },
                Fixed { raw: i64::MAX },
                hit,
            ) && (hit matches Some(at) ==> is_scatter(at.material, &ray, &at, scattered) && (
            scattered matches Some((next, _)) ==> is_light(
                next,
                background,
                world,
                depth - 1,
                incoming,
            ))) && light == #[trigger] spec_seen(*background, hit, scattered, incoming)
    }
}

/// The light that arrives along `ray` against its direction, followed over
/// `depth` bounces at most: a light that may arrive along it ([`is_light`]).
///
/// - With no bounce left the light is black.
/// - In a world without media, a ray that hits nothing sees `background`, and
///   a ray that hits a lamp sees what the lamp emits: what is hit is
///   [`spec_first_hit`].
pub fn ray_color(ray: &Ray, background: &Color, world: &HittableList, depth: i32) -> (r: Color)
    ensures
        is_light(*ray, background, world, depth as int, r),
        depth <= 0 ==> r == Vec3::spec_zero(),
        depth > 0 && all_deterministic(world.objects@) ==> match spec_first_hit(world, ray) {
            None => r == *background,
            Some(hit) => hit.material is DiffuseLight ==> r == spec_emitted(
                hit.material,
                hit.uv.0,
                hit.uv.1,
                &hit.point,
            ),
        },
    decreases depth,
{
    if depth <= 0 {
        return Vec3::black();
    }
    let first = world.hit(ray, Fixed { raw: NEAR_RAW }, Fixed::infinity());
    let ghost seen = first;
    match first {
        Some(hit) => {
            let emitted = emitted(hit.material, hit.uv.0, hit.uv.1, &hit.point);
            let scattered = scatter(hit.material, ray, &hit);
            match scattered {
                Some((next, attenuation)) => {
                    let incoming = ray_color(&next, background, world, depth - 1);
                    let r = emitted.add(attenuation.mul(incoming));
                    assert(r == spec_seen(*background, seen, scattered, incoming));
                    r
                },
                None => {
                    assert(emitted == spec_seen(*background, seen, scattered, Vec3::spec_zero()));
                    emitted
                },
            }
        },
        None => {
            assert(*background == spec_seen(*background, seen, None, Vec3::spec_zero()));
            *background
        },
    }
}

/// One channel of a pixel as a byte, from the sum of `samples_per_pixel`
/// samples: the square root of the mean, pinned to `[0, 1]`, times 255,
/// rounded down.
pub open spec fn spec_channel_byte(sum: Fixed, samples_per_pixel: i32) -> i32 {
    Fixed::from_int(255).mul(
        spec_clamp(
            sum.mul(Fixed::from_int(1).div(Fixed::from_int(samples_per_pixel))).sqrt(),
            Fixed::from_int(0),
            Fixed::from_int(1),
        ),
    ).floor_int() as i32
}

/// One channel of a pixel as a byte, from the sum of `samples_per_pixel` samples.
#[verifier::when_used_as_spec(spec_channel_byte)]
pub fn channel_byte(sum: Fixed, samples_per_pixel: i32) -> (r: i32)
    ensures
        r == spec_channel_byte(sum, samples_per_pixel),
        0 <= r <= 255,
{
    let scale = Fixed::from_int(1).div(Fixed::from_int(samples_per_pixel));
    let root = sum.mul(scale).sqrt();
    let zero = Fixed::from_int(0);
    let one = Fixed::from_int(1);
    let pinned = if root.raw > one.raw {
        one
    } else if root.raw < zero.raw {
        zero
    } else {
        root
    };
    let level = Fixed::from_int(255).mul(pinned);
    proof {
        let x = pinned.raw as int;
        assert(0 <= x <= SCALE);
        assert((255 * SCALE * x) / (SCALE as int) == 255 * x) by (nonlinear_arith)
            requires
                SCALE == 16_777_216,
        ;
        assert(Fixed::from_int(255).raw * pinned.raw == 255 * SCALE * x) by (nonlinear_arith)
            requires
                Fixed::from_int(255).raw == 255 * SCALE,
                pinned.raw == x,
        ;
        assert(level.raw == 255 * x);
        assert(0 <= (255 * x) / (SCALE as int) <= 255) by (nonlinear_arith)
            requires
                0 <= x <= SCALE,
                SCALE == 16_777_216,
        ;
    }
    level.floor_int() as i32
}

/// The red, green and blue bytes of a pixel, from the sum of
/// `samples_per_pixel` samples of its colour: [`channel_byte`] of each channel.
pub fn write_color(color: &Color, samples_per_pixel: i32) -> (r: (i32, i32, i32))
    ensures
        r == (
            spec_channel_byte(color.0, samples_per_pixel),
            spec_channel_byte(color.1, samples_per_pixel),
            spec_channel_byte(color.2, samples_per_pixel),
        ),
        0 <= r.0 <= 255 && 0 <= r.1 <= 255 && 0 <= r.2 <= 255,
{
    (
        channel_byte(color.0, samples_per_pixel),
        channel_byte(color.1, samples_per_pixel),
        channel_byte(color.2, samples_per_pixel),
    )
}

/// The coordinate on the plate of a sample of pixel `index` of `count`, shifted
/// by the fraction `jitter` of a pixel: `(index + jitter) / (count - 1)`.
pub open spec fn spec_plate_coordinate(index: i32, count: i32, jitter: Fixed) -> Fixed {
    Fixed::from_int(index).add(jitter).div(Fixed::from_int(count).sub(Fixed::from_int(1)))
}

/// The coordinate on the plate of a sample of pixel `index` of `count`.
#[verifier::when_used_as_spec(spec_plate_coordinate)]
pub fn plate_coordinate(index: i32, count: i32, jitter: Fixed) -> (r: Fixed)
    ensures
        r == spec_plate_coordinate(index, count, jitter),
{
    Fixed::from_int(index).add(jitter).div(Fixed::from_int(count).sub(Fixed::from_int(1)))
}

/// Whether `light` is a light that one sample of the pixel in column `i` of
/// row `j` may see: a light that may arrive ([`is_light`]) along a ray that
/// the camera may send ([`Camera::is_ray`]) through the point of the plate at
/// [`spec_plate_coordinate`] of the column and of the row, each shifted by a
/// fraction in `[0, 1)` of a pixel.
pub open spec fn is_sample(
    camera: &Camera,
    world: &HittableList,
    background: &Color,
    i: i32,
    j: i32,
    image_width: i32,
    image_height: i32,
    max_depth: i32,
    light: Color,
) -> bool {
    exists|du: Fixed, dv: Fixed, ray: Ray|
        is_unit(du) && is_unit(dv) && #[trigger] camera.is_ray(
            spec_plate_coordinate(i, image_width, du),
            spec_plate_coordinate(j, image_height, dv),
            ray,
        ) && is_light(ray, background, world, max_depth as int, light)
}

/// Whether `sum` is a sum that `samples` samples of the pixel in column `i` of
/// row `j` may have: black without samples, and else a sum that one sample
/// less may have plus a light that one sample may see ([`is_sample`]).
pub open spec fn is_pixel(
    camera: &Camera,
    world: &HittableList,
    background: &Color,
    i: i32,
    j: i32,
    image_width: i32,
    image_height: i32,
    samples: int,
    max_depth: i32,
    sum: Color,
) -> bool
    decreases samples,
{
    if samples <= 0 {
        sum == Vec3::spec_zero()
    } else {
        exists|before: Color, light: Color|
            is_pixel(
                camera,
                world,
                background,
                i,
                j,
                image_width,
                image_height,
                samples - 1,
                max_depth,
                before,
            ) && is_sample(
                camera,
                world,
                background,
                i,
                j,
                image_width,
                image_height,
                max_depth,
                light,
            ) && sum == #[trigger] before.spec_add(light)
    }
}

/// The sum of `samples_per_pixel` samples of the light through the pixel in
/// column `i` of row `j`, rows counted from the bottom: each sample follows a
/// ray of the camera through a random point of the pixel over `max_depth`
/// bounces at most ([`is_pixel`]). Without samples, and without bounces, the
/// sum is black.
pub fn sample_pixel(
    camera: &Camera,
    world: &HittableList,
    background: &Color,
    i: i32,
    j: i32,
    image_width: i32,
    image_height: i32,
    samples_per_pixel: i32,
    max_depth: i32,
) -> (r: Color)
    ensures
        is_pixel(
            camera,
            world,
            background,
            i,
            j,
            image_width,
            image_height,
            samples_per_pixel as int,
            max_depth,
            r,
        ),
        samples_per_pixel <= 0 || max_depth <= 0 ==> r == Vec3::spec_zero(),
{
    let mut pixel_color = Vec3::black();
    let mut sample: i32 = 0;
    while sample < samples_per_pixel
        invariant
            0 <= sample,
            sample <= samples_per_pixel || samples_per_pixel <= 0,
            is_pixel(
                camera,
                world,
                background,
                i,
                j,
                image_width,
                image_height,
                sample as int,
                max_depth,
                pixel_color,
            ),
            max_depth <= 0 ==> pixel_color == Vec3::spec_zero(),
            samples_per_pixel <= 0 ==> pixel_color == Vec3::spec_zero(),
        decreases samples_per_pixel - sample,
    {
        let du = random_double();
        let dv = random_double();
        let u = plate_coordinate(i, image_width, du);
        let v = plate_coordinate(j, image_height, dv);
        let ray = camera.get_ray(u, v);
        let light = ray_color(&ray, background, world, max_depth);
        assert(is_sample(
            camera,
            world,
            background,
            i,
            j,
            image_width,
            image_height,
            max_depth,
            light,
        ));
        let ghost before = pixel_color;
        pixel_color = pixel_color.add(light);
        assert(pixel_color == before.spec_add(light));
        sample = sample + 1;
    }
    pixel_color
}

/// The mean of `samples_per_pixel` samples, from their sum: the sum times
/// `1 / samples_per_pixel`.
pub open spec fn spec_mean_color(sum: Color, samples_per_pixel: i32) -> Color {
    sum.spec_scale(Fixed::from_int(1).div(Fixed::from_int(samples_per_pixel)))
}

/// The mean of `samples_per_pixel` samples, from their sum.
#[verifier::when_used_as_spec(spec_mean_color)]
pub fn mean_color(sum: Color, samples_per_pixel: i32) -> (r: Color)
    ensures
        r == spec_mean_color(sum, samples_per_pixel),
{
    sum.scale(Fixed::from_int(1).div(Fixed::from_int(samples_per_pixel)))
}

/// Whether `mean` is a colour that the pixel in column `i` of row `j` may
/// have in a picture: the mean of a sum that its samples may have
/// ([`is_pixel`]).
pub open spec fn is_mean_pixel(
    camera: &Camera,
    world: &HittableList,
    background: &Color,
    i: i32,
    j: i32,
    image_width: i32,
    image_height: i32,
    samples_per_pixel: i32,
    max_depth: i32,
    mean: Color,
) -> bool {
    exists|sum: Color|
        is_pixel(
            camera,
            world,
            background,
            i,
            j,
            image_width,
            image_height,
            samples_per_pixel as int,
            max_depth,
            sum,
        ) && mean == #[trigger] spec_mean_color(sum, samples_per_pixel)
}

/// The place in a picture, written row by row from the top one down and from
/// left to right within a row, of the pixel in column `i` of row `j`, rows
/// counted from the bottom.
pub open spec fn spec_pixel_index(image_width: i32, image_height: i32, i: i32, j: i32) -> int {
    image_width * (image_height - 1 - j) + i
}

/// The pixels of a picture have places of their own, row after row: the
/// places of a row lie before those of every row below it, and within the
/// picture.
pub proof fn lemma_pixel_index_order(image_width: i32, image_height: i32, i: i32, j: i32)
    requires
        0 <= i < image_width,
        0 <= j < image_height,
    ensures
        image_width * (image_height - 1 - j) <= spec_pixel_index(image_width, image_height, i, j)
            < image_width * (image_height - j) <= image_width * image_height,
{
    assert(image_width * (image_height - j) == image_width * (image_height - 1 - j) + image_width)
        by (nonlinear_arith);
    assert(image_width * (image_height - j) <= image_width * image_height) by (nonlinear_arith)
        requires
            0 <= image_width,
            0 <= j,
    ;
}

/// The picture of `world` through `camera`, `image_width` by `image_height`
/// pixels: for each pixel the mean of `samples_per_pixel` samples
/// ([`is_mean_pixel`]), row by row from the top one down and from left to
/// right within a row ([`spec_pixel_index`]). Without samples, and without
/// bounces, every pixel is black.
pub fn render(
    world: &HittableList,
    camera: &Camera,
    background: &Color,
    image_width: i32,
    image_height: i32,
    samples_per_pixel: i32,
    max_depth: i32,
) -> (r: Vec<Color>)
    requires
        0 <= image_width,
        0 <= image_height,
        image_width * image_height <= usize::MAX,
    ensures
        r@.len() == image_width * image_height,
        forall|i: i32, j: i32|
            0 <= i < image_width && 0 <= j < image_height ==> is_mean_pixel(
                camera,
                world,
                background,
                i,
                j,
                image_width,
                image_height,
                samples_per_pixel,
                max_depth,
                r@[#[trigger] spec_pixel_index(image_width, image_height, i, j)],
            ),
        samples_per_pixel <= 0 || max_depth <= 0 ==> forall|k: int|
            0 <= k < r@.len() ==> r@[k] == Vec3::spec_zero(),
{
    let mut pixels: Vec<Color> = Vec::new();
    let mut j: i32 = image_height;
    while j > 0
        invariant
            0 <= j <= image_height,
            0 <= image_width,
            image_width * image_height <= usize::MAX,
            pixels@.len() == image_width * (image_height - j),
            forall|a: i32, b: i32|
                0 <= a < image_width && j <= b < image_height ==> is_mean_pixel(
                    camera,
                    world,
                    background,
                    a,
                    b,
                    image_width,
                    image_height,
                    samples_per_pixel,
                    max_depth,
                    pixels@[#[trigger] spec_pixel_index(image_width, image_height, a, b)],
                ),
            samples_per_pixel <= 0 || max_depth <= 0 ==> forall|k: int|
                0 <= k < pixels@.len() ==> pixels@[k] == Vec3::spec_zero(),
        decreases j,
    {
        j = j - 1;
        let mut i: i32 = 0;
        while i < image_width
            invariant
                0 <= j < image_height,
                0 <= i <= image_width,
                image_width * image_height <= usize::MAX,
                pixels@.len() == image_width * (image_height - j - 1) + i,
                forall|a: i32, b: i32|
                    0 <= a < image_width && (j < b < image_height || (b == j && a < i))
                        ==> is_mean_pixel(
                        camera,
                        world,
                        background,
                        a,
                        b,
                        image_width,
                        image_height,
                        samples_per_pixel,
                        max_depth,
                        pixels@[#[trigger] spec_pixel_index(image_width, image_height, a, b)],
                    ),
                samples_per_pixel <= 0 || max_depth <= 0 ==> forall|k: int|
                    0 <= k < pixels@.len() ==> pixels@[k] == Vec3::spec_zero(),
            decreases image_width - i,
        {
            let sum = sample_pixel(
                camera,
                world,
                background,
                i,
                j,
                image_width,
                image_height,
                samples_per_pixel,
                max_depth,
            );
            let pixel = mean_color(sum, samples_per_pixel);
            assert(sum == Vec3::spec_zero() ==> pixel == Vec3::spec_zero()) by {
                let scale = Fixed::from_int(1).div(Fixed::from_int(samples_per_pixel));
                assert((0 * scale.raw) / (SCALE as int) == 0);
            }
            let ghost before = pixels@;
            proof {
                lemma_pixel_index_order(image_width, image_height, i, j);
            }
            pixels.push(pixel);
            proof {
                assert forall|a: i32, b: i32|
                    0 <= a < image_width && (j < b < image_height || (b == j && a < i + 1))
                    implies is_mean_pixel(
                    camera,
                    world,
                    background,
                    a,
                    b,
                    image_width,
                    image_height,
                    samples_per_pixel,
                    max_depth,
                    pixels@[#[trigger] spec_pixel_index(image_width, image_height, a, b)],
                ) by {
                    lemma_pixel_index_order(image_width, image_height, a, b);
                    let k = spec_pixel_index(image_width, image_height, a, b);
                    if b == j && a == i {
                        assert(k == before.len());
                    } else {
                        assert(k < before.len()) by {
                            if b > j {
                                assert(image_width * (image_height - b) <= image_width * (
                                image_height - 1 - j)) by (nonlinear_arith)
                                    requires
                                        0 <= image_width,
                                        b >= j + 1,
                                ;
                            }
                        }
                        assert(pixels@[k] == before[k]);
                    }
                }
            }
            i = i + 1;
        }
        assert(image_width * (image_height - j - 1) + image_width == image_width * (image_height
            - j)) by (nonlinear_arith);
    }
    pixels
}

} // verus!
