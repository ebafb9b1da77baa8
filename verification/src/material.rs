//! How a surface scatters and emits light.

use vstd::prelude::*;
use crate::fixed::{Fixed, SCALE};
use crate::math::{
    dot, is_unit, lemma_refract_straight_on, normalize, random_double, reflect, refract, spec_dot,
    spec_normalize, spec_reflect, spec_refract, Color, Point3, Vec3,
};
use crate::ray::{Ray, RayHit};
use crate::texture::{sample_texture, spec_sample_texture, Texture};

verus! {

/// The optical behaviour of a surface.
#[derive(Clone, Debug)]
pub enum Material {
    /// A diffuse surface coloured by a texture.
    Lambertian(Texture),
    /// A mirror of the given colour, blurred by a roughness in `[0, 1]`.
    Metal(Color, Fixed),
    /// A clear medium of the given refractive index.
    Dielectric(Fixed),
    /// A light source with the radiance of a texture.
    DiffuseLight(Texture),
    /// A medium that scatters evenly in every direction.
    Isotropic(Texture),
}

/// The reflectance at the refraction ratio `ratio` for straight incidence:
/// `((1 - ratio) / (1 + ratio))²`.
pub open spec fn spec_base_reflectance(ratio: Fixed) -> Fixed {
    let r0 = Fixed::from_int(1).sub(ratio).div(Fixed::from_int(1).add(ratio));
    r0.mul(r0)
}

/// Schlick's estimate of the reflectance at the cosine `cosine` of the angle
/// of incidence: `r0 + (1 - r0) (1 - cosine)⁵`, with `r0` as in
/// [`spec_base_reflectance`].
pub open spec fn spec_schlick(cosine: Fixed, ratio: Fixed) -> Fixed {
    let r0 = spec_base_reflectance(ratio);
    r0.add(Fixed::from_int(1).sub(r0).mul(Fixed::from_int(1).sub(cosine).pow5()))
}

/// Schlick's estimate of the reflectance at the cosine `cosine` of the angle
/// of incidence and the refraction ratio `ratio`.
#[verifier::when_used_as_spec(spec_schlick)]
pub fn schlick(cosine: Fixed, ratio: Fixed) -> (r: Fixed)
    ensures
        r == spec_schlick(cosine, ratio),
{
    let r0 = Fixed::from_int(1).sub(ratio).div(Fixed::from_int(1).add(ratio));
    let r0 = r0.mul(r0);
    r0.add(Fixed::from_int(1).sub(r0).mul(Fixed::from_int(1).sub(cosine).pow5()))
}

/// At straight incidence, where the cosine is one, Schlick's estimate is the
/// base reflectance `((1 - ratio) / (1 + ratio))²` itself.
pub proof fn lemma_schlick_at_normal_incidence(ratio: Fixed)
    ensures
        spec_schlick(Fixed::from_int(1), ratio) == spec_base_reflectance(ratio),
{
    let one = Fixed::from_int(1);
    let zero = one.sub(one);
    assert(zero.raw == 0);
    assert(zero.mul(zero).raw == 0);
    assert(zero.pow5().raw == 0);
    let r0 = spec_base_reflectance(ratio);
    let rest = one.sub(r0);
    assert(rest.mul(zero.pow5()).raw == 0) by (nonlinear_arith)
        requires
            zero.pow5().raw == 0,
            rest.mul(zero.pow5()).raw == crate::fixed::saturate(
                (rest.raw * zero.pow5().raw) / (SCALE as int),
            ),
            crate::fixed::saturate(0) == 0,
            SCALE == 16_777_216,
    {
        assert(rest.raw * zero.pow5().raw == 0);
    }
}

/// The refraction ratio at a surface of refractive index `index`: `1 / index`
/// for a ray that enters, `index` for one that leaves.
pub open spec fn spec_refraction_ratio(index: Fixed, front_face: bool) -> Fixed {
    if front_face {
        Fixed::from_int(1).div(index)
    } else {
        index
    }
}

/// What a clear surface does to a ray at the random number `u`: it reflects
/// where the ratio times the sine of the angle of incidence exceeds one (total
/// internal reflection) or `u` is below the reflectance, and refracts otherwise.
pub open spec fn spec_dielectric_direction(
    index: Fixed,
    direction: &Vec3,
    normal: &Vec3,
    front_face: bool,
    u: Fixed,
) -> Vec3 {
    let ratio = spec_refraction_ratio(index, front_face);
    let unit_direction = spec_normalize(direction);
    let cos_theta = spec_dot(&unit_direction.neg(), normal).min(Fixed::from_int(1));
    let sin_theta = Fixed::from_int(1).sub(cos_theta.mul(cos_theta)).sqrt();
    if ratio.mul(sin_theta).raw > Fixed::from_int(1).raw {
        spec_reflect(&unit_direction, normal)
    } else if u.raw < spec_schlick(cos_theta, ratio).raw {
        spec_reflect(&unit_direction, normal)
    } else {
        spec_refract(&unit_direction, normal, ratio)
    }
}

/// Clear glass of the refractive index one does not bend a ray that meets it
/// straight on: where the unit direction of the ray is the negated normal, of
/// length one, the ray goes on along its unit direction, from either side of
/// the surface and at every random number of `[0, 1)`.
pub proof fn lemma_index_one_straight_on(direction: Vec3, normal: Vec3, front_face: bool, u: Fixed)
    requires
        normal.spec_length_squared().raw == SCALE,
        spec_normalize(&direction) == normal.spec_neg(),
        is_unit(u),
    ensures
        spec_dielectric_direction(Fixed::from_int(1), &direction, &normal, front_face, u)
            == spec_normalize(&direction),
{
    let one = Fixed::from_int(1);
    let ratio = spec_refraction_ratio(one, front_face);
    assert(ratio == one);
    let unit_direction = spec_normalize(&direction);
    lemma_refract_straight_on(normal, ratio);
    assert(unit_direction.neg() == normal);
    let cos_theta = spec_dot(&unit_direction.neg(), &normal).min(one);
    assert(cos_theta == one);
    assert(cos_theta.mul(cos_theta) == one);
    let sin_theta = one.sub(cos_theta.mul(cos_theta)).sqrt();
    assert(sin_theta.raw == 0);
    assert(ratio.mul(sin_theta).raw == 0);
    lemma_schlick_at_normal_incidence(ratio);
    assert(spec_base_reflectance(ratio).raw == 0);
}

/// What a clear surface does to a ray at the random number `u`.
pub fn dielectric_direction(
    index: Fixed,
    direction: &Vec3,
    normal: &Vec3,
    front_face: bool,
    u: Fixed,
) -> (r: Vec3)
    ensures
        r == spec_dielectric_direction(index, direction, normal, front_face, u),
{
    let one = Fixed::from_int(1);
    let ratio = if front_face {
        one.div(index)
    } else {
        index
    };
    let unit_direction = normalize(direction);
    let cos_theta = dot(&unit_direction.neg(), normal).min(one);
    let sin_theta = one.sub(cos_theta.mul(cos_theta)).sqrt();
    let reflect_prob = schlick(cos_theta, ratio);
    if ratio.mul(sin_theta).raw > one.raw {
        reflect(&unit_direction, normal)
    } else if u.raw < reflect_prob.raw {
        reflect(&unit_direction, normal)
    } else {
        refract(&unit_direction, normal, ratio)
    }
}

/// The scattered ray and its attenuation at the hit `hit` of `ray`, for the
/// random draws `on_sphere` (a point of the unit sphere), `in_sphere` (a point
/// inside it) and `u` (a number in `[0, 1)`); `None` where the light is absorbed.
///
/// - A diffuse surface scatters along the normal plus `on_sphere`, attenuated
///   by its texture.
/// - A metal scatters along the mirror image of the unit direction plus
///   `in_sphere` times its roughness, attenuated by its colour, and absorbs
///   where that does not point away from the surface.
/// - A clear surface scatters along [`spec_dielectric_direction`], unattenuated.
/// - An isotropic medium scatters along `in_sphere` at the time of the ray,
///   attenuated by its texture.
/// - A light absorbs.
pub open spec fn spec_scatter_with(
    material: &Material,
    ray: &Ray,
    hit: &RayHit,
    on_sphere: Vec3,
    in_sphere: Vec3,
    u: Fixed,
) -> Option<(Ray, Color)> {
    match material {
        Material::Lambertian(texture) => Some(
            (
                Ray::new(hit.point, hit.normal.add(on_sphere), None),
                spec_sample_texture(texture, hit.uv.0, hit.uv.1, &hit.point),
            ),
        ),
        Material::Metal(albedo, roughness) => {
            let reflected = spec_reflect(&spec_normalize(&ray.dir), &hit.normal);
            let scattered = Ray::new(hit.point, reflected.add(in_sphere.scale(*roughness)), None);
            if spec_dot(&scattered.dir, &hit.normal).raw > 0 {
                Some((scattered, *albedo))
            } else {
                None
            }
        },
        Material::Dielectric(refractive_index) => Some(
            (
                Ray::new(
                    hit.point,
                    spec_dielectric_direction(
                        *refractive_index,
                        &ray.dir,
                        &hit.normal,
                        hit.front_face,
                        u,
                    ),
                    None,
                ),
                Vec3::white(),
            ),
        ),
        Material::DiffuseLight(_) => None,
        Material::Isotropic(texture) => Some(
            (
                Ray::new(hit.point, in_sphere, Some(ray.time)),
                spec_sample_texture(texture, hit.uv.0, hit.uv.1, &hit.point),
            ),
        ),
    }
}

/// The scattered ray and its attenuation for given random draws.
pub fn scatter_with(
    material: &Material,
    ray: &Ray,
    hit: &RayHit,
    on_sphere: Vec3,
    in_sphere: Vec3,
    u: Fixed,
) -> (r: Option<(Ray, Color)>)
    ensures
        r == spec_scatter_with(material, ray, hit, on_sphere, in_sphere, u),
{
    match material {
        Material::Lambertian(texture) => {
            let scatter_direction = hit.normal.add(on_sphere);
            let scattered = Ray::new(hit.point, scatter_direction, None);
            let attenuation = sample_texture(texture, hit.uv.0, hit.uv.1, &hit.point);
            Some((scattered, attenuation))
        },
        Material::Metal(albedo, roughness) => {
            let reflected = reflect(&normalize(&ray.dir), &hit.normal);
            let scattered = Ray::new(hit.point, reflected.add(in_sphere.scale(*roughness)), None);
            if dot(&scattered.dir, &hit.normal).raw > 0 {
                Some((scattered, *albedo))
            } else {
                None
            }
        },
        Material::Dielectric(refractive_index) => {
            let direction = dielectric_direction(
                *refractive_index,
                &ray.dir,
                &hit.normal,
                hit.front_face,
                u,
            );
            Some((Ray::new(hit.point, direction, None), Vec3::white()))
        },
        Material::DiffuseLight(_) => None,
        Material::Isotropic(texture) => {
            let scattered = Ray::new(hit.point, in_sphere, Some(ray.time));
            let attenuation = sample_texture(texture, hit.uv.0, hit.uv.1, &hit.point);
            Some((scattered, attenuation))
        },
    }
}

/// Whether `scattered` is a way in which the surface may scatter `ray` at
/// `hit`: [`spec_scatter_with`] at some draws, of which `on_sphere` is a point
/// of the unit sphere, `in_sphere` lies inside it and `u` in `[0, 1)`.
pub open spec fn is_scatter(
    material: &Material,
    ray: &Ray,
    hit: &RayHit,
    scattered: Option<(Ray, Color)>,
) -> bool {
    exists|on_sphere: Vec3, in_sphere: Vec3, u: Fixed|
        on_sphere.is_sphere_point() && in_sphere.in_unit_sphere() && is_unit(u) && scattered
            == #[trigger] spec_scatter_with(material, ray, hit, on_sphere, in_sphere, u)
}

/// The scattered ray and its attenuation at the hit `hit` of `ray`, or `None`
/// where the light is absorbed: [`scatter_with`] at random draws
/// ([`is_scatter`]). A light always absorbs.
pub fn scatter(material: &Material, ray: &Ray, hit: &RayHit) -> (r: Option<(Ray, Color)>)
    ensures
        is_scatter(material, ray, hit, r),
        material is DiffuseLight ==> r is None,
{
    let zero = Vec3::black();
    let none = Fixed { raw: 0 };
    let ghost pole = Vec3::spec_on_unit_sphere(Fixed { raw: 0 }, Fixed { raw: 0 });
    assert(pole.is_sphere_point());
    assert(zero.in_unit_sphere());
    match material {
        Material::Lambertian(_) => {
            let on_sphere = Vec3::random_unit_vector();
            let r = scatter_with(material, ray, hit, on_sphere, zero, none);
            assert(r == spec_scatter_with(material, ray, hit, on_sphere, zero, none));
            r
        },
        Material::Metal(_, _) => {
            let in_sphere = Vec3::random_in_unit_sphere();
            let r = scatter_with(material, ray, hit, zero, in_sphere, none);
            assert(r == spec_scatter_with(material, ray, hit, pole, in_sphere, none));
            r
        },
        Material::Dielectric(_) => {
            let u = random_double();
            let r = scatter_with(material, ray, hit, zero, zero, u);
            assert(r == spec_scatter_with(material, ray, hit, pole, zero, u));
            r
        },
        Material::DiffuseLight(_) => {
            let r = scatter_with(material, ray, hit, zero, zero, none);
            assert(r == spec_scatter_with(material, ray, hit, pole, zero, none));
            r
        },
        Material::Isotropic(_) => {
            let in_sphere = Vec3::random_in_unit_sphere();
            let r = scatter_with(material, ray, hit, zero, in_sphere, none);
            assert(r == spec_scatter_with(material, ray, hit, pole, in_sphere, none));
            r
        },
    }
}

/// The light that the surface emits at the surface coordinates `(u, v)` and
/// the point `p`: the texture of a light, and black for any other material.
pub open spec fn spec_emitted(material: &Material, u: Fixed, v: Fixed, p: &Point3) -> Color {
    match material {
        Material::DiffuseLight(texture) => spec_sample_texture(texture, u, v, p),
        _ => Vec3::black(),
    }
}

/// The light that the surface emits at the surface coordinates `(u, v)` and
/// the point `p`.
#[verifier::when_used_as_spec(spec_emitted)]
pub fn emitted(material: &Material, u: Fixed, v: Fixed, p: &Point3) -> (r: Color)
    ensures
        r == spec_emitted(material, u, v, p),
{
    match material {
        Material::DiffuseLight(texture) => sample_texture(texture, u, v, p),
        _ => Vec3::black(),
    }
}

} // verus!
