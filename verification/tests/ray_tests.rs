use raytrace::fixed::Fx;
use raytrace::ray::Ray;
use raytrace::vec3::Vec3;

fn fx(x: f64) -> Fx {
    Fx::from_raw((x * 65536.0).round() as i64)
}

fn vec(x: f64, y: f64, z: f64) -> Vec3 {
    Vec3::new(fx(x), fx(y), fx(z))
}

fn ray() -> Ray {
    Ray::new(vec(1.0, 0.0, -1.0), vec(-1.0, 0.0, 1.0))
}

#[test]
fn test_at() {
    assert_eq!(ray().at(fx(1.0)), vec(0.0, 0.0, 0.0));
}

#[test]
fn test_unit_direction() {
    let sqrt_one_half = 1.0 / (2.0f64).sqrt();
    assert_eq!(
        ray().unit_direction(),
        vec(-sqrt_one_half, 0.0, sqrt_one_half)
    );
}
