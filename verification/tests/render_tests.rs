use raytrace::camera::Camera;
use raytrace::config::{validate_render_config, ConfigError};
use raytrace::fixed::Fx;
use raytrace::hittable_list::HittableList;
use raytrace::materials::{Dielectric, Lambertian, Material, Metal};
use raytrace::ray::Ray;
use raytrace::render::{ray_to_color, render_image, render_row};
use raytrace::rng::Prng;
use raytrace::scene::gen_random_scene;
use raytrace::sphere::Sphere;
use raytrace::vec3::{valid_color, Vec3};

fn fx(x: f64) -> Fx {
    Fx::from_raw((x * 65536.0).round() as i64)
}

fn vec(x: f64, y: f64, z: f64) -> Vec3 {
    Vec3::new(fx(x), fx(y), fx(z))
}

fn gray() -> Material {
    Material::Lambertian(Lambertian::new(vec(0.5, 0.5, 0.5)))
}

fn ground_world() -> HittableList {
    let mut world = HittableList::empty();
    world.add(Sphere::new(vec(0.0, -1000.0, 0.0), fx(1000.0), gray()));
    world
}

fn small_world() -> HittableList {
    let mut world = ground_world();
    world.add(Sphere::new(
        vec(0.0, 1.0, 0.0),
        fx(1.0),
        Material::Dielectric(Dielectric::new(fx(1.5))),
    ));
    world.add(Sphere::new(
        vec(4.0, 1.0, 0.0),
        fx(1.0),
        Material::Metal(Metal::new(vec(0.7, 0.6, 0.5), fx(0.0))),
    ));
    world
}

fn test_camera() -> Camera {
    Camera::new(
        vec(13.0, 2.0, 3.0),
        vec(0.0, 0.0, 0.0),
        vec(0.0, 1.0, 0.0),
        fx(20.0),
        fx(1.5),
        fx(0.1),
        fx(10.0),
    )
}

#[test]
fn test_background_gradient() {
    let world = HittableList::empty();
    let mut rng = Prng::from_seed(1);
    let up = Ray::new(vec(0.0, 0.0, 0.0), vec(0.0, 1.0, 0.0));
    assert_eq!(ray_to_color(&up, &world, 4, &mut rng), vec(0.2, 0.4, 1.0));
    let down = Ray::new(vec(0.0, 0.0, 0.0), vec(0.0, -1.0, 0.0));
    assert_eq!(ray_to_color(&down, &world, 4, &mut rng), vec(1.0, 1.0, 1.0));
}

#[test]
fn test_depth_exhausted_is_black() {
    let world = small_world();
    let mut rng = Prng::from_seed(2);
    let r = Ray::new(vec(0.0, 2.0, 0.0), vec(0.0, -1.0, 0.0));
    assert_eq!(ray_to_color(&r, &world, 0, &mut rng), vec(0.0, 0.0, 0.0));
}

fn brightness(c: &Vec3) -> i64 {
    c.e0.raw + c.e1.raw + c.e2.raw
}

#[test]
fn test_depth_darkening() {
    // A diffuse scene with the recursion budget exhausted sooner is
    // darker: with one bounce allowed every path ends black, with more
    // bounces light from the background gets through.
    let world = ground_world();
    let r = Ray::new(vec(0.0, 2.0, 0.0), vec(0.0, -1.0, 0.0));
    let mut rng1 = Prng::from_seed(42);
    let shallow = ray_to_color(&r, &world, 1, &mut rng1);
    let mut rng2 = Prng::from_seed(42);
    let deep = ray_to_color(&r, &world, 5, &mut rng2);
    assert_eq!(brightness(&shallow), 0);
    assert!(brightness(&deep) > brightness(&shallow));
}

#[test]
fn test_ray_to_color_stays_valid() {
    let world = small_world();
    let mut rng = Prng::from_seed(5);
    let cam = test_camera();
    for i in 0..32 {
        let s = Fx::from_raw((i as i64) * 2048);
        let t = Fx::from_raw(65536 - (i as i64) * 2048);
        let r = cam.get_ray(s, t, &mut rng);
        let c = ray_to_color(&r, &world, 8, &mut rng);
        assert!(valid_color(&c));
    }
}

#[test]
fn test_render_determinism() {
    let world = small_world();
    let cam = test_camera();
    let rows1 = render_image(&cam, &world, 8, 6, 2, 4, 12345);
    let rows2 = render_image(&cam, &world, 8, 6, 2, 4, 12345);
    assert_eq!(rows1.len(), 6);
    assert_eq!(rows1, rows2);
}

#[test]
fn test_render_row_shape() {
    let world = small_world();
    let cam = test_camera();
    let mut rng = Prng::from_seed(77);
    let row = render_row(&cam, &world, 0, 4, 4, 1, 3, &mut rng);
    let lines: Vec<&str> = row.split('\n').collect();
    assert_eq!(lines.len(), 5);
    assert_eq!(lines[4], "");
    for line in &lines[0..4] {
        let parts: Vec<&str> = line.split(' ').collect();
        assert_eq!(parts.len(), 3);
        for part in parts {
            let v: u32 = part.parse().expect("channel is a decimal integer");
            assert!(v <= 255);
        }
    }
}

#[test]
fn test_scene_generation_deterministic() {
    let mut rng1 = Prng::from_seed(9);
    let world1 = gen_random_scene(&mut rng1);
    let mut rng2 = Prng::from_seed(9);
    let world2 = gen_random_scene(&mut rng2);
    assert!(world1.objects.len() >= 4);
    assert_eq!(world1.objects.len(), world2.objects.len());
    assert_eq!(world1.objects[0].radius, fx(1000.0));
}

#[test]
fn test_validate_render_config() {
    assert_eq!(validate_render_config(0, 5, 3), Err(ConfigError::ImageWidth));
    assert_eq!(validate_render_config(5, 0, 3), Err(ConfigError::ImageHeight));
    assert_eq!(
        validate_render_config(5, 5, 0),
        Err(ConfigError::SampleCount)
    );
    assert_eq!(
        validate_render_config(5, 5, -2),
        Err(ConfigError::SampleCount)
    );
    assert_eq!(validate_render_config(5, 5, 3), Ok(()));
}

#[test]
fn test_config_error_messages() {
    assert_eq!(
        ConfigError::ImageWidth.describe(),
        "image width must be positive"
    );
    assert_eq!(
        ConfigError::SphereRadius.describe(),
        "sphere radius must be positive"
    );
}

#[test]
fn test_camera_center_ray() {
    // A pinhole camera looking straight down the negative depth axis.
    let cam = Camera::new(
        vec(0.0, 0.0, 0.0),
        vec(0.0, 0.0, -1.0),
        vec(0.0, 1.0, 0.0),
        fx(90.0),
        fx(1.0),
        fx(0.0),
        fx(1.0),
    );
    let mut rng = Prng::from_seed(3);
    let r = cam.get_ray(fx(0.5), fx(0.5), &mut rng);
    assert_eq!(r.orig, vec(0.0, 0.0, 0.0));
    assert!(r.dir.e2.raw < 0);
    assert!(r.dir.e0.raw.abs() <= 32);
    assert!(r.dir.e1.raw.abs() <= 32);
}
