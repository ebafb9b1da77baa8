//! Surface colours: constant, procedural and sampled from a pixel buffer.

use vstd::prelude::*;
use crate::fixed::{Fixed, SCALE};
use crate::math::{spec_clamp, Color, Point3, Vec3};
use crate::noise::Perlin;

verus! {

/// The column of a pixel buffer `width` wide under the horizontal coordinate
/// `u`: `u` pinned to `[0, 1]`, times the width, rounded down, and the last
/// column at `u = 1`.
pub open spec fn spec_column(u: Fixed, width: u32) -> int {
    let pinned = spec_clamp(u, Fixed::from_int(0), Fixed::from_int(1));
    let i = (pinned.raw * width) / (SCALE as int);
    if i >= width {
        width - 1
    } else {
        i
    }
}

/// The row of a pixel buffer `height` high under the vertical coordinate `v`,
/// row 0 being the top one: as [`spec_column`] at `1 - v`.
pub open spec fn spec_row(v: Fixed, height: u32) -> int {
    let pinned = spec_clamp(v, Fixed::from_int(0), Fixed::from_int(1));
    let j = (Fixed::from_int(1).sub(pinned).raw * height) / (SCALE as int);
    if j >= height {
        height - 1
    } else {
        j
    }
}

/// A colour channel from a byte: `byte / 255`.
pub open spec fn spec_channel(byte: u8) -> Fixed {
    Fixed::from_int(byte as i32).div(Fixed::from_int(255))
}

/// A colour channel from a byte: `byte / 255`.
#[verifier::when_used_as_spec(spec_channel)]
pub fn channel(byte: u8) -> (r: Fixed)
    ensures
        r == spec_channel(byte),
{
    Fixed::from_int(byte as i32).div(Fixed::from_int(255))
}

fn scaled_index(t: Fixed, extent: u32) -> (r: u32)
    requires
        0 <= t.raw <= SCALE,
        extent > 0,
    ensures
        r == (if (t.raw * extent) / (SCALE as int) >= extent {
            extent - 1
        } else {
            (t.raw * extent) / (SCALE as int)
        }),
        r < extent,
{
    let raw: u64 = t.raw as u64;
    assert(0 <= raw * extent <= 0x100_0000 * 0xffff_ffff) by (nonlinear_arith)
        requires
            0 <= raw <= 0x100_0000,
            0 <= extent <= 0xffff_ffff,
    ;
    let i: u64 = (raw * (extent as u64)) / 16_777_216;
    if i >= extent as u64 {
        extent - 1
    } else {
        i as u32
    }
}

/// A pixel buffer of red, green and blue bytes, three to a pixel, row by row
/// from the top.
#[derive(Debug)]
pub struct Image {
    data: Vec<u8>,
    width: u32,
    height: u32,
    bytes_per_scanline: usize,
}

impl Clone for Image {
    fn clone(&self) -> (r: Image)
        ensures
            r.pixels() == self.pixels(),
            r.spec_width() == self.spec_width(),
            r.spec_height() == self.spec_height(),
    {
        proof {
            use_type_invariant(self);
        }
        Image {
            data: self.data.clone(),
            width: self.width,
            height: self.height,
            bytes_per_scanline: self.bytes_per_scanline,
        }
    }
}

impl Image {
    /// The number of bytes of one pixel.
    pub const BYTES_PER_PIXEL: usize = 3;

    #[verifier::type_invariant]
    spec fn consistent(&self) -> bool {
        &&& self.data@.len() == 3 * (self.width * self.height)
        &&& self.data@.len() > 0 ==> self.bytes_per_scanline == 3 * self.width
    }

    /// The bytes of the buffer.
    pub closed spec fn pixels(&self) -> Seq<u8> {
        self.data@
    }

    /// The number of pixels in a row.
    pub closed spec fn spec_width(&self) -> u32 {
        self.width
    }

    /// The number of rows.
    pub closed spec fn spec_height(&self) -> u32 {
        self.height
    }

    /// The colour at the surface coordinates `(u, v)`: the pixel in column
    /// [`spec_column`] of row [`spec_row`], each byte over 255. Cyan where the
    /// buffer holds no pixel.
    pub open spec fn spec_sample(&self, u: Fixed, v: Fixed) -> Color {
        if self.pixels().len() == 0 {
            Vec3(Fixed { raw: 0 }, Fixed { raw: SCALE }, Fixed { raw: SCALE })
        } else {
            let at = 3 * (spec_row(v, self.spec_height()) * self.spec_width() + spec_column(
                u,
                self.spec_width(),
            ));
            Vec3(
                spec_channel(self.pixels()[at]),
                spec_channel(self.pixels()[at + 1]),
                spec_channel(self.pixels()[at + 2]),
            )
        }
    }

    /// A pixel buffer `width` by `height`, if `data` holds three bytes for
    /// each of its pixels and no more.
    pub fn new(width: u32, height: u32, data: Vec<u8>) -> (r: Option<Image>)
        ensures
            r is Some <==> data@.len() == 3 * (width * height),
            r matches Some(image) ==> image.pixels() == data@ && image.spec_width() == width
                && image.spec_height() == height,
    {
        assert(0 <= width * height <= 0xffff_ffff * 0xffff_ffff) by (nonlinear_arith)
            requires
                0 <= width <= 0xffff_ffff,
                0 <= height <= 0xffff_ffff,
        ;
        let wanted: u128 = 3 * ((width as u128) * (height as u128));
        if data.len() as u128 == wanted {
            if data.len() == 0 {
                Some(Image { data, width, height, bytes_per_scanline: 0 })
            } else {
                assert(3 * width <= 3 * (width * height)) by (nonlinear_arith)
                    requires
                        0 < 3 * (width * height),
                        0 <= width,
                        0 <= height,
                ;
                Some(Image { data, width, height, bytes_per_scanline: 3 * (width as usize) })
            }
        } else {
            None
        }
    }

    /// The number of pixels in a row.
    #[verifier::when_used_as_spec(spec_width)]
    pub fn width(&self) -> (r: u32)
        ensures
            r == self.spec_width(),
    {
        self.width
    }

    /// The number of rows.
    #[verifier::when_used_as_spec(spec_height)]
    pub fn height(&self) -> (r: u32)
        ensures
            r == self.spec_height(),
    {
        self.height
    }

    /// The colour at the surface coordinates `(u, v)`.
    #[verifier::when_used_as_spec(spec_sample)]
    pub fn sample(&self, u: Fixed, v: Fixed) -> (r: Color)
        ensures
            r == self.spec_sample(u, v),
    {
        proof {
            use_type_invariant(self);
        }
        if self.data.len() == 0 {
            return Vec3::cyan();
        }
        let zero = Fixed::from_int(0);
        let one = Fixed::from_int(1);
        let u = if u.raw > one.raw {
            one
        } else if u.raw < zero.raw {
            zero
        } else {
            u
        };
        let v = if v.raw > one.raw {
            one
        } else if v.raw < zero.raw {
            zero
        } else {
            v
        };
        let v = one.sub(v);
        assert(self.width > 0 && self.height > 0) by (nonlinear_arith)
            requires
                self.data@.len() == 3 * (self.width * self.height),
                self.data@.len() > 0,
        ;
        let i: u32 = scaled_index(u, self.width);
        let j: u32 = scaled_index(v, self.height);
        assert(3 * (j * self.width + i) + 2 < 3 * (self.width * self.height)) by (nonlinear_arith)
            requires
                0 <= i < self.width,
                0 <= j < self.height,
        ;
        assert(j * (3 * self.width) + i * 3 == 3 * (j * self.width + i)) by (nonlinear_arith);
        let pixel: usize = (j as usize) * self.bytes_per_scanline + (i as usize) * 3;
        Vec3(channel(self.data[pixel]), channel(self.data[pixel + 1]), channel(self.data[pixel + 2]))
    }
}

/// A surface colour as a function of the surface coordinates and the point hit.
#[derive(Clone, Debug)]
pub enum Texture {
    /// One colour everywhere.
    SolidColor(Color),
    /// Two colours in a three-dimensional checker pattern: the first where the
    /// product of the sines is negative, the second elsewhere.
    Checker(Color, Color),
    /// Grey gradient noise at the given frequency.
    Perlin(Perlin, Fixed),
    /// Grey bands along z, shifted by turbulence.
    Marble(Perlin, Fixed),
    /// The pixels of an image, by the surface coordinates.
    Image(Image),
}

/// The product `sin(10 x) sin(10 y) sin(10 z)` whose sign picks the colour of
/// a checker texture.
pub open spec fn spec_checker_sines(p: &Point3) -> Fixed {
    Fixed::from_int(10).mul(p.0).sin().mul(Fixed::from_int(10).mul(p.1).sin()).mul(
        Fixed::from_int(10).mul(p.2).sin(),
    )
}

/// The grey level `0.5 (1 + n)` in each channel.
pub open spec fn spec_grey(n: Fixed) -> Color {
    Vec3::white().scale(Fixed::from_ratio(1, 2)).scale(Fixed::from_int(1).add(n))
}

/// The grey level `0.5 (1 + n)` in each channel.
#[verifier::when_used_as_spec(spec_grey)]
pub fn grey(n: Fixed) -> (r: Color)
    ensures
        r == spec_grey(n),
{
    Vec3::white().scale(Fixed::from_ratio(1, 2)).scale(Fixed::from_int(1).add(n))
}

/// The colour of `texture` at the surface coordinates `(u, v)` and the point `p`.
pub open spec fn spec_sample_texture(texture: &Texture, u: Fixed, v: Fixed, p: &Point3) -> Color {
    match texture {
        Texture::SolidColor(color_value) => *color_value,
        Texture::Checker(odd, even) => if spec_checker_sines(p).raw < 0 {
            *odd
        } else {
            *even
        },
        Texture::Perlin(noise, scale) => spec_grey(noise.noise(&p.scale(*scale))),
        Texture::Marble(noise, scale) => spec_grey(
            scale.mul(p.2).add(Fixed::from_int(10).mul(noise.turbulence(p, 7))).sin(),
        ),
        Texture::Image(image) => image.sample(u, v),
    }
}

/// The colour of `texture` at the surface coordinates `(u, v)` and the point `p`.
#[verifier::when_used_as_spec(spec_sample_texture)]
pub fn sample_texture(texture: &Texture, u: Fixed, v: Fixed, p: &Point3) -> (r: Color)
    ensures
        r == spec_sample_texture(texture, u, v, p),
{
    match texture {
        Texture::SolidColor(color_value) => *color_value,
        Texture::Checker(odd, even) => {
            let ten = Fixed::from_int(10);
            let sines = ten.mul(p.0).sin().mul(ten.mul(p.1).sin()).mul(ten.mul(p.2).sin());
            if sines.raw < 0 {
                *odd
            } else {
                *even
            }
        },
        Texture::Perlin(noise, scale) => grey(noise.noise(&p.scale(*scale))),
        Texture::Marble(noise, scale) => grey(
            scale.mul(p.2).add(Fixed::from_int(10).mul(noise.turbulence(p, 7))).sin(),
        ),
        Texture::Image(image) => image.sample(u, v),
    }
}

} // verus!
