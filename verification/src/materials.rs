//! Light-scattering models: diffuse, specular-with-fuzz, and refractive
//! glass, as a closed set of variants dispatched by pattern match.

use vstd::prelude::*;
use crate::fixed::{Fx, SCALE};
use crate::vec3::{Vec3, Color, spec_valid_color};
use crate::ray::Ray;
use crate::rng::Prng;
use crate::hittable::{Hit, Surface};
use crate::sampling::{
    rand_unit_spec,
    rand_unit,
    random_unit_vector_spec,
    random_in_unit_sphere_spec,
};

verus! {

/// Diffuse surface: scatters everywhere, tinted by its albedo.
#[derive(Clone, Copy, Debug)]
pub struct Lambertian {
    pub albedo: Color,
}

/// Specular surface: mirror reflection, roughened by `fuzziness` in
/// `[0, 1]`.
#[derive(Clone, Copy, Debug)]
pub struct Metal {
    pub albedo: Color,
    pub fuzziness: Fx,
}

/// Clear glass with a positive refractive index; reflects or refracts,
/// never absorbs.
#[derive(Clone, Copy, Debug)]
pub struct Dielectric {
    pub refractive_index: Fx,
}

/// The closed set of material variants.
#[derive(Clone, Copy, Debug)]
pub enum Material {
    Lambertian(Lambertian),
    Metal(Metal),
    Dielectric(Dielectric),
}

/// A scatter outcome: the color attenuation and the outgoing ray.
#[derive(Clone, Copy, Debug)]
pub struct ScatterResult {
    pub attenuation: Color,
    pub ray: Ray,
}

pub open spec fn lambertian_wf(m: Lambertian) -> bool {
    spec_valid_color(m.albedo)
}

pub open spec fn metal_wf(m: Metal) -> bool {
    &&& spec_valid_color(m.albedo)
    &&& 0 <= m.fuzziness.raw <= SCALE
}

pub open spec fn dielectric_wf(m: Dielectric) -> bool {
    m.refractive_index.raw > 0
}

/// Well-formedness of a material: its parameters lie in the ranges the
/// scattering model assumes.
pub open spec fn material_wf(m: Material) -> bool {
    match m {
        Material::Lambertian(l) => lambertian_wf(l),
        Material::Metal(mt) => metal_wf(mt),
        Material::Dielectric(d) => dielectric_wf(d),
    }
}

impl ScatterResult {
    pub fn new(attenuation: Color, ray: Ray) -> (r: ScatterResult)
        ensures
            r == (ScatterResult { attenuation, ray }),
    {
        ScatterResult { attenuation, ray }
    }
}

impl Vec3 {
    /// Mirror reflection of `self` about `normal` (both assumed unit
    /// length): `self - 2 (self . normal) normal`.
    pub open spec fn reflect_spec(self, normal: Vec3) -> Vec3 {
        self.minus_spec(
            normal.scale_spec(Fx { raw: 131072 }.times_spec(self.dot_spec(normal))),
        )
    }

    pub fn reflect(&self, normal: &Vec3) -> (r: Vec3)
        ensures
            r == self.reflect_spec(*normal),
    {
        let s = Fx { raw: 131072 }.times(self.dot(normal));
        let v = normal.scale(s);
        self.minus(&v)
    }
}

impl Lambertian {
    pub fn new(albedo: Color) -> (r: Lambertian)
        requires
            spec_valid_color(albedo),
        ensures
            r == (Lambertian { albedo }),
    {
        Lambertian { albedo }
    }

    /// Scatter direction is the unit normal plus a random unit vector,
    /// falling back to the normal itself when that sum degenerates.
    pub open spec fn scatter_spec(self, hit: Hit, p: Prng) -> (Option<ScatterResult>, Prng) {
        let (ruv, p2) = random_unit_vector_spec(p);
        let uncorrected = hit.normal.plus_spec(ruv);
        let dir = if uncorrected.near_zero_spec() {
            hit.normal
        } else {
            uncorrected
        };
        (
            Some(
                ScatterResult { attenuation: self.albedo, ray: Ray { orig: hit.location, dir } },
            ),
            p2,
        )
    }

    pub fn scatter(&self, _ray_in: &Ray, hit: &Hit, rng: &mut Prng) -> (r: Option<ScatterResult>)
        ensures
            (r, *final(rng)) == self.scatter_spec(*hit, *old(rng)),
            r is Some,
    {
        let ruv = Vec3::random_unit_vector(rng);
        let uncorrected_scatter_dir = hit.normal.plus(&ruv);
        let scatter_direction = if uncorrected_scatter_dir.is_near_zero() {
            hit.normal
        } else {
            uncorrected_scatter_dir
        };
        let scattered_ray = Ray::new(hit.location, scatter_direction);
        Some(ScatterResult::new(self.albedo, scattered_ray))
    }
}

impl Metal {
    pub fn new(albedo: Color, fuzziness: Fx) -> (r: Metal)
        requires
            spec_valid_color(albedo),
            0 <= fuzziness.raw <= SCALE,
        ensures
            r == (Metal { albedo, fuzziness }),
    {
        Metal { albedo, fuzziness }
    }

    /// Reflect the unit incoming direction, perturb by `fuzziness` times a
    /// random point in the unit ball, and absorb reflections that point
    /// into the surface.
    pub open spec fn scatter_spec(self, ray_in: Ray, hit: Hit, p: Prng) -> (
        Option<ScatterResult>,
        Prng,
    ) {
        let (s, p2) = random_in_unit_sphere_spec(p);
        let dir = ray_in.unit_direction_spec().reflect_spec(hit.normal).plus_spec(
            s.scale_spec(self.fuzziness),
        );
        if dir.dot_spec(hit.normal).raw > 0 {
            (
                Some(
                    ScatterResult {
                        attenuation: self.albedo,
                        ray: Ray { orig: hit.location, dir },
                    },
                ),
                p2,
            )
        } else {
            (None, p2)
        }
    }

    pub fn scatter(&self, ray_in: &Ray, hit: &Hit, rng: &mut Prng) -> (r: Option<ScatterResult>)
        ensures
            (r, *final(rng)) == self.scatter_spec(*ray_in, *hit, *old(rng)),
    {
        let s = Vec3::random_in_unit_sphere(rng);
        let u = ray_in.unit_direction();
        let reflected_direction = u.reflect(&hit.normal).plus(&s.scale(self.fuzziness));
        if reflected_direction.dot(&hit.normal).raw > 0 {
            let scattered_ray = Ray::new(hit.location, reflected_direction);
            Some(ScatterResult::new(self.albedo, scattered_ray))
        } else {
            None
        }
    }
}

/// Schlick's reflectance approximation:
/// `r0 + (1 - r0) * (1 - cos)^5` with `r0 = ((1 - eta) / (1 + eta))^2`.
pub open spec fn reflectance_spec(cosine: Fx, eta_ratio: Fx) -> Fx {
    let one = Fx { raw: SCALE };
    let base = one.minus_spec(eta_ratio).div_spec(one.plus_spec(eta_ratio));
    let r0 = base.times_spec(base);
    let b = one.minus_spec(cosine);
    let b2 = b.times_spec(b);
    let b4 = b2.times_spec(b2);
    r0.plus_spec(one.minus_spec(r0).times_spec(b4.times_spec(b)))
}

/// Refraction through the surface, or `None` when the draw chose
/// reflection or total internal reflection ruled refraction out.
pub open spec fn refract_spec(incoming: Vec3, normal: Vec3, eta_ratio: Fx, p: Prng) -> (
    Option<Vec3>,
    Prng,
) {
    let one = Fx { raw: SCALE };
    let cos0 = incoming.dot_spec(normal.neg_spec());
    let cos_theta = if cos0.raw > SCALE {
        one
    } else {
        cos0
    };
    let (u, p2) = rand_unit_spec(p);
    if reflectance_spec(cos_theta, eta_ratio).raw > u.raw {
        (None, p2)
    } else {
        let sin_theta = one.minus_spec(cos_theta.times_spec(cos_theta)).sqrt_spec();
        if eta_ratio.times_spec(sin_theta).raw <= SCALE {
            let r_orth = incoming.plus_spec(normal.scale_spec(cos_theta)).scale_spec(eta_ratio);
            let r_par_len = one.minus_spec(r_orth.length_squared_spec()).sqrt_spec();
            let r_par = normal.scale_spec(r_par_len.neg_spec());
            (Some(r_orth.plus_spec(r_par)), p2)
        } else {
            (None, p2)
        }
    }
}

impl Dielectric {
    pub fn new(refractive_index: Fx) -> (r: Dielectric)
        requires
            refractive_index.raw > 0,
        ensures
            r == (Dielectric { refractive_index }),
    {
        Dielectric { refractive_index }
    }

    pub fn reflectance(cosine: Fx, eta_ratio: Fx) -> (r: Fx)
        ensures
            r == reflectance_spec(cosine, eta_ratio),
    {
        let one = Fx { raw: SCALE };
        let base = one.minus(eta_ratio).divide(one.plus(eta_ratio));
        let r0 = base.times(base);
        let b = one.minus(cosine);
        let b2 = b.times(b);
        let b4 = b2.times(b2);
        r0.plus(one.minus(r0).times(b4.times(b)))
    }

    /// `incoming` and `normal` are assumed unit length; `None` means the
    /// path reflects instead (by the stochastic Schlick draw or by total
    /// internal reflection).
    pub fn refract(&self, incoming: &Vec3, normal: &Vec3, eta_ratio: Fx, rng: &mut Prng) -> (r:
        Option<Vec3>)
        ensures
            (r, *final(rng)) == refract_spec(*incoming, *normal, eta_ratio, *old(rng)),
    {
        let one = Fx { raw: SCALE };
        let nn = normal.neg();
        let cos0 = incoming.dot(&nn);
        let cos_theta = if cos0.raw > SCALE {
            one
        } else {
            cos0
        };
        let u = rand_unit(rng);
        if Dielectric::reflectance(cos_theta, eta_ratio).raw > u.raw {
            return None;
        }
        let sin_theta = one.minus(cos_theta.times(cos_theta)).sqrt();
        if eta_ratio.times(sin_theta).raw <= SCALE {
            let r_orth = incoming.plus(&normal.scale(cos_theta)).scale(eta_ratio);
            let r_par_len = one.minus(r_orth.length_squared()).sqrt();
            let r_par = normal.scale(r_par_len.neg());
            Some(r_orth.plus(&r_par))
        } else {
            None
        }
    }

    /// Glass always scatters: refract where possible, reflect otherwise;
    /// attenuation is clear white.
    pub open spec fn scatter_spec(self, ray_in: Ray, hit: Hit, p: Prng) -> (
        Option<ScatterResult>,
        Prng,
    ) {
        let one = Fx { raw: SCALE };
        let attenuation = Vec3 { e0: one, e1: one, e2: one };
        let eta_frac = if hit.surface == Surface::Inside {
            self.refractive_index
        } else {
            one.div_spec(self.refractive_index)
        };
        let (refracted, p2) = refract_spec(ray_in.unit_direction_spec(), hit.normal, eta_frac, p);
        let direction = match refracted {
            Some(d) => d,
            None => ray_in.unit_direction_spec().reflect_spec(hit.normal),
        };
        (
            Some(
                ScatterResult { attenuation, ray: Ray { orig: hit.location, dir: direction } },
            ),
            p2,
        )
    }

    pub fn scatter(&self, ray_in: &Ray, hit: &Hit, rng: &mut Prng) -> (r: Option<ScatterResult>)
        ensures
            (r, *final(rng)) == self.scatter_spec(*ray_in, *hit, *old(rng)),
            r is Some,
    {
        let one = Fx { raw: SCALE };
        let attenuation = Vec3 { e0: one, e1: one, e2: one };
        let eta_frac = if hit.surface == Surface::Inside {
            self.refractive_index
        } else {
            one.divide(self.refractive_index)
        };
        let u = ray_in.unit_direction();
        let direction = match self.refract(&u, &hit.normal, eta_frac, rng) {
            Some(refracted_direction) => refracted_direction,
            None => u.reflect(&hit.normal),
        };
        Some(ScatterResult::new(attenuation, Ray::new(hit.location, direction)))
    }
}

impl Material {
    /// Dispatch to the variant's scattering rule.
    pub open spec fn scatter_spec(self, ray_in: Ray, hit: Hit, p: Prng) -> (
        Option<ScatterResult>,
        Prng,
    ) {
        match self {
            Material::Lambertian(l) => l.scatter_spec(hit, p),
            Material::Metal(m) => m.scatter_spec(ray_in, hit, p),
            Material::Dielectric(d) => d.scatter_spec(ray_in, hit, p),
        }
    }

    /// Ask the material how the incoming ray scatters at `hit`; `None`
    /// means the path is absorbed.
    pub fn scatter(&self, ray_in: &Ray, hit: &Hit, rng: &mut Prng) -> (r: Option<ScatterResult>)
        ensures
            (r, *final(rng)) == self.scatter_spec(*ray_in, *hit, *old(rng)),
    {
        match self {
            Material::Lambertian(l) => l.scatter(ray_in, hit, rng),
            Material::Metal(m) => m.scatter(ray_in, hit, rng),
            Material::Dielectric(d) => d.scatter(ray_in, hit, rng),
        }
    }
}

/// Whatever the stream and geometry, a well-formed material only ever
/// reports attenuations that are valid colors.
pub proof fn lemma_scatter_attenuation_valid(m: Material, ray_in: Ray, hit: Hit, p: Prng)
    requires
        material_wf(m),
    ensures
        match m.scatter_spec(ray_in, hit, p).0 {
            Some(sr) => spec_valid_color(sr.attenuation),
            None => true,
        },
{
}

} // verus!
