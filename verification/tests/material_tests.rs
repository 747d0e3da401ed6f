use raytrace::fixed::Fx;
use raytrace::hittable::{Hit, Surface};
use raytrace::materials::{Dielectric, Lambertian, Material, Metal};
use raytrace::ray::Ray;
use raytrace::rng::Prng;
use raytrace::vec3::Vec3;

fn fx(x: f64) -> Fx {
    Fx::from_raw((x * 65536.0).round() as i64)
}

fn vec(x: f64, y: f64, z: f64) -> Vec3 {
    Vec3::new(fx(x), fx(y), fx(z))
}

fn hit_at_origin(material: Material) -> Hit {
    Hit::new(
        vec(0.0, 0.0, 0.0),
        vec(0.0, 1.0, 0.0),
        fx(1.0),
        material,
        Surface::Outside,
    )
}

#[test]
fn test_lambertian_always_scatters() {
    let albedo = vec(0.8, 0.4, 0.2);
    let lambertian = Lambertian::new(albedo);
    let hit = hit_at_origin(Material::Lambertian(lambertian));
    let ray_in = Ray::new(vec(0.0, 1.0, 0.0), vec(0.0, -1.0, 0.0));
    let mut rng = Prng::from_seed(1);
    for _ in 0..20 {
        let sr = lambertian
            .scatter(&ray_in, &hit, &mut rng)
            .expect("diffuse never absorbs");
        assert_eq!(sr.attenuation, albedo);
        assert_eq!(sr.ray.orig, hit.location);
    }
}

#[test]
fn test_metal_reflects_head_on() {
    let albedo = vec(0.7, 0.6, 0.5);
    let metal = Metal::new(albedo, fx(0.0));
    let hit = hit_at_origin(Material::Metal(metal));
    let ray_in = Ray::new(vec(0.0, 1.0, 0.0), vec(0.0, -1.0, 0.0));
    let mut rng = Prng::from_seed(2);
    let sr = metal
        .scatter(&ray_in, &hit, &mut rng)
        .expect("head-on reflection scatters");
    assert_eq!(sr.attenuation, albedo);
    assert_eq!(sr.ray.dir, vec(0.0, 1.0, 0.0));
}

#[test]
fn test_metal_absorbs_reflection_into_surface() {
    let metal = Metal::new(vec(0.7, 0.6, 0.5), fx(0.0));
    let hit = hit_at_origin(Material::Metal(metal));
    // Incoming along the normal: the reflection points into the surface.
    let ray_in = Ray::new(vec(0.0, -1.0, 0.0), vec(0.0, 1.0, 0.0));
    let mut rng = Prng::from_seed(3);
    assert!(metal.scatter(&ray_in, &hit, &mut rng).is_none());
}

#[test]
fn test_dielectric_never_absorbs() {
    let glass = Dielectric::new(fx(1.5));
    let hit = hit_at_origin(Material::Dielectric(glass));
    let ray_in = Ray::new(vec(0.0, 1.0, 0.0), vec(0.0, -1.0, 0.0));
    let mut rng = Prng::from_seed(4);
    for _ in 0..20 {
        let sr = glass
            .scatter(&ray_in, &hit, &mut rng)
            .expect("glass never absorbs");
        assert_eq!(sr.attenuation, vec(1.0, 1.0, 1.0));
    }
}

#[test]
fn test_reflect_formula() {
    let d = vec(1.0, -1.0, 0.0);
    let n = vec(0.0, 1.0, 0.0);
    assert_eq!(d.reflect(&n), vec(1.0, 1.0, 0.0));
}
