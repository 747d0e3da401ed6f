use raytrace::config::ConfigError;
use raytrace::fixed::Fx;
use raytrace::hittable::{Hittable, Surface};
use raytrace::materials::{Lambertian, Material};
use raytrace::ray::Ray;
use raytrace::sphere::{first_acceptable, interval_validator, solve_pq, trivial_validator, Sphere};
use raytrace::vec3::Vec3;

fn fx(x: f64) -> Fx {
    Fx::from_raw((x * 65536.0).round() as i64)
}

fn vec(x: f64, y: f64, z: f64) -> Vec3 {
    Vec3::new(fx(x), fx(y), fx(z))
}

fn gray() -> Material {
    Material::Lambertian(Lambertian::new(vec(0.5, 0.5, 0.5)))
}

#[test]
fn test_acceptable() {
    let trivial_true = |_: Fx| true;
    let trivial_false = |_: Fx| false;
    let v = vec![fx(1.0), fx(2.0), fx(3.0)];
    assert_eq!(first_acceptable(v.clone(), &trivial_true), Some(fx(1.0)));
    assert_eq!(first_acceptable(v, &trivial_false), None);
}

#[test]
fn test_pq_solver() {
    let pq_sol_1 = solve_pq(fx(4.0), fx(-5.0));
    assert!(!pq_sol_1.is_none());
    let (x1, x2) = pq_sol_1.unwrap();
    assert_eq!(x1, fx(-5.0));
    assert_eq!(x2, fx(1.0));
    let pq_sol_2 = solve_pq(fx(0.0), fx(1.0));
    assert_eq!(pq_sol_2, None);
}

#[test]
fn test_validators() {
    assert!(trivial_validator().accepts(fx(2.0)));
    assert!(trivial_validator().accepts(fx(-1.0)));
    let interval_1 = interval_validator(Some(fx(0.0)), Some(fx(1.0)));
    let interval_2 = interval_validator(None, Some(fx(1.0)));
    let interval_3 = interval_validator(Some(fx(0.0)), None);
    assert!(interval_1.accepts(fx(0.5)));
    assert!(!interval_1.accepts(fx(1.2)));
    assert!(!interval_1.accepts(fx(-0.7)));

    assert!(interval_2.accepts(fx(0.5)));
    assert!(!interval_2.accepts(fx(1.2)));
    assert!(interval_2.accepts(fx(-0.7)));

    assert!(interval_3.accepts(fx(0.5)));
    assert!(interval_3.accepts(fx(1.2)));
    assert!(!interval_3.accepts(fx(-0.7)));
}

#[test]
fn sphere_hits() {
    // Sphere hit from inside
    let validator = interval_validator(Some(fx(0.0)), None);
    let sphere = Sphere::new(vec(0.0, 0.0, 0.0), fx(1.0), gray());
    let ray1 = Ray::new(vec(0.0, 0.0, 0.0), vec(1.0, 0.0, 0.0));
    let hit1 = sphere
        .hit(&ray1, &validator)
        .expect("Ray 1 should've hit sphere");
    assert_eq!(hit1.t, fx(1.0));
    assert_eq!(hit1.normal, vec(-1.0, 0.0, 0.0));
    assert_eq!(hit1.location, vec(1.0, 0.0, 0.0));
    assert_eq!(hit1.surface, Surface::Inside);

    // Sphere hit from outside
    let sphere = Sphere::new(vec(0.0, 0.0, 0.0), fx(1.0), gray());
    let ray2 = Ray::new(vec(0.0, 3.0, 0.0), vec(0.0, -1.0, 0.0));
    let hit2 = sphere
        .hit(&ray2, &validator)
        .expect("Ray 2 should've hit sphere");
    assert_eq!(hit2.t, fx(2.0));
    assert_eq!(hit2.normal, vec(0.0, 1.0, 0.0));
    assert_eq!(hit2.location, vec(0.0, 1.0, 0.0));
    assert_eq!(hit2.surface, Surface::Outside);

    // Sphere not hit
    let ray3 = Ray::new(vec(4.0, 0.0, 0.0), vec(0.0, 1.0, 0.0));
    let hit3 = sphere.hit(&ray3, &validator);
    assert!(hit3.is_none());

    // Sphere cancelled by validator
    let ray4 = Ray::new(vec(2.0, 0.0, 0.0), vec(1.0, 0.0, 0.0));
    let hit4 = sphere.hit(&ray4, &validator);
    assert!(hit4.is_none());
}

#[test]
fn test_first_acceptable_takes_first() {
    let over_two = |t: Fx| t.raw > 2 * 65536;
    let v = vec![fx(1.0), fx(3.0), fx(5.0)];
    assert_eq!(first_acceptable(v, &over_two), Some(fx(3.0)));
}

#[test]
fn test_try_new_rejects_radius() {
    let bad = Sphere::try_new(vec(0.0, 0.0, 0.0), fx(0.0), gray());
    assert_eq!(bad.err(), Some(ConfigError::SphereRadius));
    let good = Sphere::try_new(vec(0.0, 0.0, 0.0), fx(1.0), gray());
    assert!(good.is_ok());
}
