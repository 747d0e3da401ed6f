use raytrace::fixed::Fx;
use raytrace::vec3::{color_string, color_string_checked, valid_color, Vec3};

fn fx(x: f64) -> Fx {
    Fx::from_raw((x * 65536.0).round() as i64)
}

fn vec(x: f64, y: f64, z: f64) -> Vec3 {
    Vec3::new(fx(x), fx(y), fx(z))
}

fn test_vec_1() -> Vec3 {
    vec(1.0, 2.0, 3.0)
}

fn test_vec_2() -> Vec3 {
    vec(-1.0, 0.0, 1.0)
}

#[test]
fn test_add_vectors() {
    let res = vec(0.0, 2.0, 4.0);
    assert_eq!(test_vec_1().plus(&test_vec_2()), res);
    assert_eq!(test_vec_2().plus(&test_vec_1()), res);
}

#[test]
fn test_sub_vectors() {
    assert_eq!(test_vec_1().minus(&test_vec_2()), vec(2.0, 2.0, 2.0));
}

#[test]
fn test_mul_scalar() {
    let res = vec(2.0, 4.0, 6.0);
    let v = test_vec_1();
    assert_eq!(v.scale(fx(2.0)), res);
    let commuted = Vec3::new(fx(2.0).times(v.e0), fx(2.0).times(v.e1), fx(2.0).times(v.e2));
    assert_eq!(commuted, res);
}

#[test]
fn test_dot_product() {
    assert_eq!(test_vec_1().dot(&test_vec_2()), fx(2.0));
}

#[test]
fn test_lengths() {
    assert_eq!(test_vec_2().length(), fx((2.0f64).sqrt()));
    assert_eq!(test_vec_2().length_squared(), fx(2.0));
}

#[test]
fn test_unit_vector_creation() {
    let sqrt_one_half = 1.0 / (2.0f64).sqrt();
    assert_eq!(
        test_vec_2().unit_vector(),
        vec(-sqrt_one_half, 0.0, sqrt_one_half)
    );
}

#[test]
fn test_hadamard_product() {
    assert_eq!(
        test_vec_1().hadamard(&test_vec_2()),
        vec(-1.0, 0.0, 3.0)
    );
}

#[test]
fn test_color_validation() {
    assert!(!valid_color(&vec(1.1, 0.0, 1.0)));
    assert!(valid_color(&vec(0.8, 0.0, 1.0)));
    assert!(!valid_color(&vec(0.8, 0.0, -0.3)));
}

#[test]
fn test_color_string() {
    assert_eq!("255 255 255", color_string(&vec(1.0, 1.0, 1.0)));
}

#[test]
fn test_color_string_black_and_mid() {
    assert_eq!("0 0 0", color_string(&vec(0.0, 0.0, 0.0)));
    assert_eq!("128 64 255", color_string(&vec(0.5, 0.25, 1.0)));
}

#[test]
fn test_color_string_checked_rejects_out_of_range() {
    assert_eq!(color_string_checked(&vec(1.1, 0.0, 1.0)), None);
    assert_eq!(color_string_checked(&vec(0.5, 0.0, -0.1)), None);
    assert_eq!(
        color_string_checked(&vec(1.0, 1.0, 1.0)),
        Some(String::from("255 255 255"))
    );
}

#[test]
fn test_gamma_correct_is_square_root() {
    assert_eq!(vec(0.25, 1.0, 0.0).gamma_correct(), vec(0.5, 1.0, 0.0));
}

#[test]
fn test_clamp_unit() {
    assert_eq!(vec(1.5, -0.25, 0.5).clamp_unit(), vec(1.0, 0.0, 0.5));
}

#[test]
fn test_cross_product() {
    let x = vec(1.0, 0.0, 0.0);
    let y = vec(0.0, 1.0, 0.0);
    assert_eq!(x.cross(&y), vec(0.0, 0.0, 1.0));
    assert_eq!(y.cross(&x), vec(0.0, 0.0, -1.0));
}
