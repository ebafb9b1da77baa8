use pathtracer::fixed::{Fixed, SCALE};
use pathtracer::math::Vec3;
use pathtracer::noise::{
    corner_weight, hermite, lattice, perlin_interp, step, trilinear_interp, Perlin,
};
use pathtracer::texture::{channel, grey, sample_texture, Image, Texture};

fn fx(x: f64) -> Fixed {
    Fixed::from_raw((x * SCALE as f64).round() as i64)
}

fn fl(x: Fixed) -> f64 {
    x.raw() as f64 / SCALE as f64
}

fn v(x: f64, y: f64, z: f64) -> Vec3 {
    Vec3::new(fx(x), fx(y), fx(z))
}

fn byte(level: u8) -> Fixed {
    Fixed::from_int(level as i32).div(Fixed::from_int(255))
}

fn identity_noise() -> Perlin {
    let mut perm = [0u8; 256];
    let mut rand_vec = [Vec3::black(); 256];
    for i in 0..256 {
        perm[i] = i as u8;
        let t = i as f64 / 256.0;
        rand_vec[i] = v(2.0 * t - 1.0, 1.0 - 2.0 * t, f64::sin(7.0 * t));
    }
    Perlin { perm_x: perm, perm_y: perm, perm_z: perm, rand_vec }
}

fn two_by_two() -> Image {
    // top row: red, green; bottom row: blue, white
    let data = vec![255, 0, 0, 0, 255, 0, 0, 0, 255, 255, 255, 255];
    Image::new(2, 2, data).unwrap()
}

#[test]
fn solid_colour_is_the_same_everywhere() {
    let texture = Texture::SolidColor(v(0.1, 0.2, 0.3));
    assert_eq!(sample_texture(&texture, fx(0.0), fx(0.0), &v(0.0, 0.0, 0.0)), v(0.1, 0.2, 0.3));
    assert_eq!(sample_texture(&texture, fx(0.7), fx(0.2), &v(5.0, -3.0, 9.0)), v(0.1, 0.2, 0.3));
}

#[test]
fn checker_picks_by_the_sign_of_the_product_of_sines() {
    let odd = v(0.0, 0.0, 0.0);
    let even = v(1.0, 1.0, 1.0);
    let texture = Texture::Checker(odd, even);
    let at = |x: f64, y: f64, z: f64| sample_texture(&texture, fx(0.0), fx(0.0), &v(x, y, z));
    // 10 * 0.1 = 1 radian: all three sines positive
    assert_eq!(at(0.1, 0.1, 0.1), even);
    // one sine negative
    assert_eq!(at(-0.1, 0.1, 0.1), odd);
    assert_eq!(at(0.1, -0.1, 0.1), odd);
    assert_eq!(at(0.1, 0.1, -0.1), odd);
    // two sines negative
    assert_eq!(at(-0.1, -0.1, 0.1), even);
    // three sines negative
    assert_eq!(at(-0.1, -0.1, -0.1), odd);
    // a product of zero is not negative
    assert_eq!(at(0.0, 0.1, 0.1), even);
    // 10 * 0.4 = 4 radians is past pi
    assert_eq!(at(0.4, 0.1, 0.1), odd);
}

#[test]
fn checker_repeats_after_a_fifth_of_pi() {
    let odd = v(0.0, 0.0, 0.0);
    let even = v(1.0, 1.0, 1.0);
    let texture = Texture::Checker(odd, even);
    let at = |x: f64, y: f64, z: f64| sample_texture(&texture, fx(0.0), fx(0.0), &v(x, y, z));
    // the sine of ten times a coordinate has the period pi / 5; after half of
    // it, pi / 10, the sine has the other sign and the colours change places
    let period = std::f64::consts::PI / 5.0;
    let mut state: u64 = 4242;
    let mut next = move || {
        state = state.wrapping_mul(6364136223846793005).wrapping_add(1442695040888963407);
        (state >> 11) as f64 / (1u64 << 53) as f64
    };
    let mut tried = 0;
    while tried < 300 {
        let (x, y, z) = (4.0 * next() - 2.0, 4.0 * next() - 2.0, 4.0 * next() - 2.0);
        // keep clear of the faces of the cells, where rounding decides
        let clear = |c: f64| f64::sin(10.0 * c).abs() > 0.01;
        if !(clear(x) && clear(y) && clear(z)) {
            continue;
        }
        tried += 1;
        let here = at(x, y, z);
        for k in [-3.0, -1.0, 1.0, 2.0] {
            assert_eq!(at(x + k * period, y, z), here);
            assert_eq!(at(x, y + k * period, z), here);
            assert_eq!(at(x, y, z + k * period), here);
        }
        assert_ne!(at(x + period / 2.0, y, z), here);
        assert_ne!(at(x, y - period / 2.0, z), here);
        assert_eq!(at(x + period / 2.0, y + period / 2.0, z), here);
    }
}

#[test]
fn grey_levels() {
    assert_eq!(grey(fx(0.0)), v(0.5, 0.5, 0.5));
    assert_eq!(grey(fx(1.0)), v(1.0, 1.0, 1.0));
    assert_eq!(grey(fx(-1.0)), v(0.0, 0.0, 0.0));
    assert_eq!(grey(fx(0.5)), v(0.75, 0.75, 0.75));
}

#[test]
fn image_needs_three_bytes_for_each_pixel() {
    assert!(Image::new(2, 2, vec![0; 12]).is_some());
    assert!(Image::new(2, 2, vec![0; 11]).is_none());
    assert!(Image::new(2, 2, vec![0; 13]).is_none());
    assert!(Image::new(2, 2, vec![]).is_none());
    assert!(Image::new(0, 0, vec![]).is_some());
    assert!(Image::new(0, 5, vec![]).is_some());
    assert!(Image::new(0, 5, vec![1, 2, 3]).is_none());
    let image = Image::new(3, 1, vec![0; 9]).unwrap();
    assert_eq!(image.width(), 3);
    assert_eq!(image.height(), 1);
    let copy = image.clone();
    assert_eq!(copy.width(), 3);
    assert_eq!(copy.height(), 1);
}

#[test]
fn image_is_sampled_with_the_top_row_at_v_one() {
    let image = two_by_two();
    let red = Vec3::new(byte(255), byte(0), byte(0));
    let green = Vec3::new(byte(0), byte(255), byte(0));
    let blue = Vec3::new(byte(0), byte(0), byte(255));
    let white = Vec3::new(byte(255), byte(255), byte(255));
    assert_eq!(image.sample(fx(0.25), fx(0.75)), red);
    assert_eq!(image.sample(fx(0.75), fx(0.75)), green);
    assert_eq!(image.sample(fx(0.25), fx(0.25)), blue);
    assert_eq!(image.sample(fx(0.75), fx(0.25)), white);
    // the corners, the last column and the last row
    assert_eq!(image.sample(fx(0.0), fx(1.0)), red);
    assert_eq!(image.sample(fx(1.0), fx(1.0)), green);
    assert_eq!(image.sample(fx(0.0), fx(0.0)), blue);
    assert_eq!(image.sample(fx(1.0), fx(0.0)), white);
    // the middle belongs to the second column and the second row
    assert_eq!(image.sample(fx(0.5), fx(0.5)), white);
    // coordinates outside the unit square are pinned to it
    assert_eq!(image.sample(fx(-3.0), fx(7.0)), red);
    assert_eq!(image.sample(fx(3.0), fx(-7.0)), white);
    let texture = Texture::Image(two_by_two());
    assert_eq!(sample_texture(&texture, fx(0.75), fx(0.75), &v(9.0, 9.0, 9.0)), green);
}

#[test]
fn image_bytes_become_fractions_of_255() {
    assert_eq!(channel(0), Fixed::zero());
    assert_eq!(channel(255), Fixed::one());
    assert_eq!(channel(51), Fixed::from_ratio(1, 5));
    let image = Image::new(1, 1, vec![51, 102, 204]).unwrap();
    let c = image.sample(fx(0.5), fx(0.5));
    assert!((fl(c.0) - 0.2).abs() < 1e-6);
    assert!((fl(c.1) - 0.4).abs() < 1e-6);
    assert!((fl(c.2) - 0.8).abs() < 1e-6);
}

#[test]
fn image_without_pixels_is_cyan() {
    let image = Image::new(0, 0, vec![]).unwrap();
    assert_eq!(image.sample(fx(0.5), fx(0.5)), v(0.0, 1.0, 1.0));
}

#[test]
fn wide_image_picks_the_column_by_u() {
    let mut data = Vec::new();
    for column in 0..10u8 {
        data.push(column * 10);
        data.push(0);
        data.push(0);
    }
    let image = Image::new(10, 1, data).unwrap();
    for column in 0..10 {
        let u = fx(column as f64 / 10.0 + 0.05);
        assert_eq!(image.sample(u, fx(0.5)).0, byte(column as u8 * 10));
    }
}

#[test]
fn interpolation_weights() {
    assert_eq!(corner_weight(true, fx(0.25)), fx(0.25));
    assert_eq!(corner_weight(false, fx(0.25)), fx(0.75));
    assert_eq!(step(true), fx(1.0));
    assert_eq!(step(false), fx(0.0));
    assert_eq!(hermite(fx(0.0)), fx(0.0));
    assert_eq!(hermite(fx(1.0)), fx(1.0));
    assert_eq!(hermite(fx(0.5)), fx(0.5));
    assert_eq!(hermite(fx(0.25)), fx(0.15625));
}

#[test]
fn trilinear_interpolation_meets_the_corners() {
    let mut c = [Fixed::zero(); 8];
    for (i, value) in c.iter_mut().enumerate() {
        *value = Fixed::from_int(i as i32 + 1);
    }
    assert_eq!(trilinear_interp(&c, fx(0.0), fx(0.0), fx(0.0)), fx(1.0));
    assert_eq!(trilinear_interp(&c, fx(0.0), fx(0.0), fx(1.0)), fx(2.0));
    assert_eq!(trilinear_interp(&c, fx(0.0), fx(1.0), fx(0.0)), fx(3.0));
    assert_eq!(trilinear_interp(&c, fx(1.0), fx(0.0), fx(0.0)), fx(5.0));
    assert_eq!(trilinear_interp(&c, fx(1.0), fx(1.0), fx(1.0)), fx(8.0));
    assert_eq!(trilinear_interp(&c, fx(0.5), fx(0.5), fx(0.5)), fx(4.5));
    assert_eq!(trilinear_interp(&c, fx(0.5), fx(0.0), fx(0.0)), fx(3.0));
}

#[test]
fn gradient_interpolation_vanishes_at_the_corners() {
    let mut c = [Vec3::black(); 8];
    for (i, value) in c.iter_mut().enumerate() {
        *value = v(i as f64 - 3.0, 0.5, 1.0);
    }
    // at a corner the offset from the corner is zero, and the other corners weigh nothing
    assert_eq!(perlin_interp(&c, fx(0.0), fx(0.0), fx(0.0)), fx(0.0));
    assert_eq!(perlin_interp(&c, fx(1.0), fx(1.0), fx(1.0)), fx(0.0));
    // in the middle each corner weighs an eighth
    let mut sum = 0.0;
    for i in 0..2 {
        for j in 0..2 {
            for k in 0..2 {
                let g = (4 * i + 2 * j + k) as f64 - 3.0;
                sum += (g * (0.5 - i as f64) + 0.5 * (0.5 - j as f64) + 0.5 - k as f64) / 8.0;
            }
        }
    }
    assert!((fl(perlin_interp(&c, fx(0.5), fx(0.5), fx(0.5))) - sum).abs() < 1e-6);
}

#[test]
fn lattice_cells() {
    assert_eq!(lattice(fx(0.0)), 0);
    assert_eq!(lattice(fx(0.99)), 0);
    assert_eq!(lattice(fx(1.0)), 1);
    assert_eq!(lattice(fx(300.5)), 300);
    assert_eq!(lattice(fx(-0.5)), 0);
    assert_eq!(lattice(fx(-7.0)), 0);
}

#[test]
fn gradients_are_found_through_the_three_tables() {
    let noise = identity_noise();
    assert_eq!(noise.gradient(1, 2, 4), noise.rand_vec[7]);
    assert_eq!(noise.gradient(3, 3, 5), noise.rand_vec[5]);
    assert_eq!(noise.gradient(256 + 1, 512 + 2, 4), noise.rand_vec[7]);
    assert_eq!(noise.gradient(255, 0, 0), noise.rand_vec[255]);
}

#[test]
fn noise_is_the_interpolation_over_the_cell() {
    let noise = identity_noise();
    let p = v(3.25, 10.5, 7.75);
    let c = [
        noise.gradient(3, 10, 7),
        noise.gradient(3, 10, 8),
        noise.gradient(3, 11, 7),
        noise.gradient(3, 11, 8),
        noise.gradient(4, 10, 7),
        noise.gradient(4, 10, 8),
        noise.gradient(4, 11, 7),
        noise.gradient(4, 11, 8),
    ];
    assert_eq!(noise.noise(&p), perlin_interp(&c, fx(0.25), fx(0.5), fx(0.75)));
    // at a lattice point the noise vanishes
    assert_eq!(noise.noise(&v(3.0, 10.0, 7.0)), fx(0.0));
    let n = fl(noise.noise(&p));
    assert!(n > -2.0 && n < 2.0);
}

#[test]
fn turbulence_sums_octaves_at_twice_the_frequency_and_half_the_weight() {
    let noise = identity_noise();
    let p = v(0.3, 1.7, 2.9);
    assert_eq!(noise.turbulence(&p, 0), fx(0.0));
    assert_eq!(noise.turbulence(&p, -3), fx(0.0));
    assert_eq!(noise.turbulence(&p, 1), noise.noise(&p).abs());
    let two = noise.noise(&p).add(fx(0.5).mul(noise.noise(&p.scale(fx(2.0)))));
    assert_eq!(noise.turbulence(&p, 2), two.abs());
    let three = two.add(fx(0.25).mul(noise.noise(&p.scale(fx(4.0)))));
    assert_eq!(noise.turbulence(&p, 3), three.abs());
    assert!(noise.turbulence(&p, 7) >= fx(0.0));
}

#[test]
fn noise_textures_are_grey() {
    let noise = identity_noise();
    let p = v(0.3, 1.7, 2.9);
    let perlin = Texture::Perlin(noise, fx(4.0));
    let c = sample_texture(&perlin, fx(0.0), fx(0.0), &p);
    assert_eq!(c, grey(noise.noise(&p.scale(fx(4.0)))));
    assert_eq!(c.0, c.1);
    assert_eq!(c.1, c.2);
    let marble = Texture::Marble(noise, fx(4.0));
    let c = sample_texture(&marble, fx(0.0), fx(0.0), &p);
    let phase = fx(4.0).mul(p.2).add(fx(10.0).mul(noise.turbulence(&p, 7)));
    assert_eq!(c, grey(phase.sin()));
    assert!(fl(c.0) >= -1e-5 && fl(c.0) <= 1.0 + 1e-5);
}

#[test]
fn fresh_noise_has_shuffled_tables() {
    let noise = Perlin::new();
    let identity: Vec<u8> = (0..=255).collect();
    for table in [noise.perm_x, noise.perm_y, noise.perm_z] {
        let mut sorted = table.to_vec();
        sorted.sort();
        assert_eq!(sorted, identity);
        assert_ne!(table.to_vec(), identity);
    }
    assert_ne!(noise.perm_x, noise.perm_y);
    for gradient in noise.rand_vec {
        assert!(fx(-1.0) <= gradient.0 && gradient.0 <= fx(1.0));
        assert!(fx(-1.0) <= gradient.1 && gradient.1 <= fx(1.0));
        assert!(fx(-1.0) <= gradient.2 && gradient.2 <= fx(1.0));
        let length = gradient.length().raw() as f64 / SCALE as f64;
        assert!((length - 1.0).abs() < 1e-5, "a gradient of length {}", length);
    }
    let shuffled = Perlin::perlin_generate_perm();
    let mut sorted = shuffled.to_vec();
    sorted.sort();
    assert_eq!(sorted, identity);
    assert_ne!(shuffled.to_vec(), identity);
}
