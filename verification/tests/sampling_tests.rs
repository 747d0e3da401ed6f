use raytrace::fixed::Fx;
use raytrace::rng::Prng;
use raytrace::sampling::{rand_coord, rand_unit, ColorSampler};
use raytrace::vec3::Vec3;

fn fx(x: f64) -> Fx {
    Fx::from_raw((x * 65536.0).round() as i64)
}

fn vec(x: f64, y: f64, z: f64) -> Vec3 {
    Vec3::new(fx(x), fx(y), fx(z))
}

#[test]
fn test_sampler_mean() {
    let mut sampler = ColorSampler::new();
    sampler.add(&vec(2.0, 2.0, 2.0));
    sampler.add(&vec(4.0, 4.0, 4.0));
    assert_eq!(sampler.get_and_reset(), vec(3.0, 3.0, 3.0));
}

#[test]
fn test_sampler_reset_isolates() {
    let mut sampler = ColorSampler::new();
    sampler.add(&vec(2.0, 2.0, 2.0));
    sampler.add(&vec(4.0, 4.0, 4.0));
    let first = sampler.get_and_reset();
    assert_eq!(first, vec(3.0, 3.0, 3.0));
    // The next batch starts a fresh mean that excludes the first samples.
    sampler.add(&vec(1.0, 0.0, 1.0));
    sampler.add(&vec(0.0, 0.0, 1.0));
    assert_eq!(sampler.get_and_reset(), vec(0.5, 0.0, 1.0));
}

#[test]
fn test_prng_determinism() {
    let mut a = Prng::from_seed(42);
    let mut b = Prng::from_seed(42);
    for _ in 0..64 {
        assert_eq!(a.next_u64(), b.next_u64());
    }
    let mut c = Prng::from_seed(43);
    assert_ne!(a.next_u64(), c.next_u64());
}

#[test]
fn test_rand_unit_range() {
    let mut rng = Prng::from_seed(7);
    for _ in 0..200 {
        let u = rand_unit(&mut rng);
        assert!(0 <= u.raw && u.raw < 65536);
    }
}

#[test]
fn test_rand_coord_range() {
    let mut rng = Prng::from_seed(8);
    for _ in 0..200 {
        let u = rand_coord(&mut rng);
        assert!(-65536 <= u.raw && u.raw < 65536);
    }
}

#[test]
fn test_random_in_unit_sphere_inside() {
    let mut rng = Prng::from_seed(9);
    for _ in 0..100 {
        let v = Vec3::random_in_unit_sphere(&mut rng);
        assert!(v.length_squared().raw < 65536);
    }
}

#[test]
fn test_random_in_unit_disk_inside() {
    let mut rng = Prng::from_seed(10);
    for _ in 0..100 {
        let v = Vec3::random_in_unit_disk(&mut rng);
        assert!(v.e0.raw * v.e0.raw + v.e1.raw * v.e1.raw < 65536i64 * 65536);
    }
}

#[test]
fn test_random_in_hemisphere_side() {
    let mut rng = Prng::from_seed(11);
    let normal = vec(0.0, 1.0, 0.0);
    for _ in 0..100 {
        let v = Vec3::random_in_hemisphere(normal, &mut rng);
        assert!(v.dot(&normal).raw >= 0);
    }
}
