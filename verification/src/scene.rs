//! The demonstration scene: a large gray ground sphere, a grid of small
//! spheres with randomly drawn materials, and three large feature spheres.

use vstd::prelude::*;
use crate::fixed::{Fx, SCALE};
use crate::vec3::{Vec3, spec_valid_color};
use crate::rng::Prng;
use crate::materials::{Material, Lambertian, Metal, Dielectric};
use crate::sphere::{Sphere, sphere_wf};
use crate::hittable_list::{HittableList, world_wf};
use crate::sampling::{rand_unit, rand_unit_spec, rand_range, rand_range_spec, random_range_spec};
use crate::render::fx_index;

verus! {

/// Number of grid cells considered for small spheres: a 22-by-22 grid
/// covering coordinates -11..11 on both axes.
pub const GRID_CELLS: i32 = 484;

/// The ground: a huge gray diffuse sphere below the scene.
pub open spec fn ground_sphere_spec() -> Sphere {
    Sphere {
        center: Vec3 { e0: Fx { raw: 0 }, e1: Fx { raw: -65536000i64 }, e2: Fx { raw: 0 } },
        radius: Fx { raw: 65536000 },
        material: Material::Lambertian(
            Lambertian {
                albedo: Vec3 { e0: Fx { raw: 32768 }, e1: Fx { raw: 32768 }, e2: Fx { raw: 32768 } },
            },
        ),
    }
}

/// One grid cell: draw a material selector and a jittered center; cells
/// too close to the right feature sphere stay empty.  The selector picks
/// diffuse below 0.8, metal below 0.95, glass above.
pub open spec fn scene_cell_spec(a: int, b: int, p: Prng) -> (Option<Sphere>, Prng) {
    let (material_num, p1) = rand_unit_spec(p);
    let (jx, p2) = rand_unit_spec(p1);
    let (jz, p3) = rand_unit_spec(p2);
    let cx = fx_index(a).plus_spec(Fx { raw: 58982 }.times_spec(jx));
    let cz = fx_index(b).plus_spec(Fx { raw: 58982 }.times_spec(jz));
    let center = Vec3 { e0: cx, e1: Fx { raw: 13107 }, e2: cz };
    let anchor = Vec3 { e0: Fx { raw: 262144 }, e1: Fx { raw: 13107 }, e2: Fx { raw: 0 } };
    if center.minus_spec(anchor).length_spec().raw > 58982 {
        if material_num.raw < 52429 {
            let (a1, p4) = random_range_spec(p3, Fx { raw: 0 }, Fx { raw: SCALE });
            let (a2, p5) = random_range_spec(p4, Fx { raw: 0 }, Fx { raw: SCALE });
            (
                Some(
                    Sphere {
                        center,
                        radius: Fx { raw: 13107 },
                        material: Material::Lambertian(
                            Lambertian { albedo: a1.hadamard_spec(a2) },
                        ),
                    },
                ),
                p5,
            )
        } else if material_num.raw < 62259 {
            let (alb, p4) = random_range_spec(p3, Fx { raw: 32768 }, Fx { raw: SCALE });
            let (fz, p5) = rand_range_spec(p4, Fx { raw: 0 }, Fx { raw: 32768 });
            (
                Some(
                    Sphere {
                        center,
                        radius: Fx { raw: 13107 },
                        material: Material::Metal(Metal { albedo: alb, fuzziness: fz }),
                    },
                ),
                p5,
            )
        } else {
            (
                Some(
                    Sphere {
                        center,
                        radius: Fx { raw: 13107 },
                        material: Material::Dielectric(
                            Dielectric { refractive_index: Fx { raw: 98304 } },
                        ),
                    },
                ),
                p3,
            )
        }
    } else {
        (None, p3)
    }
}

/// The scene after the first `k` grid cells, ground sphere included.
pub open spec fn scene_prefix_spec(k: int, p0: Prng) -> (Seq<Sphere>, Prng)
    decreases k,
    when k >= 0
{
    if k <= 0 {
        (seq![ground_sphere_spec()], p0)
    } else {
        let (s, p) = scene_prefix_spec(k - 1, p0);
        let (cell, p2) = scene_cell_spec((k - 1) / 22 - 11, (k - 1) % 22 - 11, p);
        match cell {
            Some(sp) => (s.push(sp), p2),
            None => (s, p2),
        }
    }
}

/// The three fixed feature spheres added after the grid: glass, diffuse
/// brown, and polished metal.
pub open spec fn feature_spheres_spec() -> Seq<Sphere> {
    seq![
        Sphere {
            center: Vec3 { e0: Fx { raw: 0 }, e1: Fx { raw: 65536 }, e2: Fx { raw: 0 } },
            radius: Fx { raw: 65536 },
            material: Material::Dielectric(Dielectric { refractive_index: Fx { raw: 98304 } }),
        },
        Sphere {
            center: Vec3 { e0: Fx { raw: -262144i64 }, e1: Fx { raw: 65536 }, e2: Fx { raw: 0 } },
            radius: Fx { raw: 65536 },
            material: Material::Lambertian(
                Lambertian {
                    albedo: Vec3 {
                        e0: Fx { raw: 26214 },
                        e1: Fx { raw: 13107 },
                        e2: Fx { raw: 6554 },
                    },
                },
            ),
        },
        Sphere {
            center: Vec3 { e0: Fx { raw: 262144 }, e1: Fx { raw: 65536 }, e2: Fx { raw: 0 } },
            radius: Fx { raw: 65536 },
            material: Material::Metal(
                Metal {
                    albedo: Vec3 {
                        e0: Fx { raw: 45875 },
                        e1: Fx { raw: 39322 },
                        e2: Fx { raw: 32768 },
                    },
                    fuzziness: Fx { raw: 0 },
                },
            ),
        },
    ]
}

/// The whole generated scene, as a function of the stream.
pub open spec fn gen_random_scene_spec(p0: Prng) -> (Seq<Sphere>, Prng) {
    let (s, p) = scene_prefix_spec(GRID_CELLS as int, p0);
    (s + feature_spheres_spec(), p)
}

/// Any sphere a grid cell yields is well formed: its drawn material
/// parameters land in the ranges the scattering model assumes.
proof fn lemma_scene_cell_wf(a: int, b: int, p: Prng)
    ensures
        match scene_cell_spec(a, b, p).0 {
            Some(s) => sphere_wf(s),
            None => true,
        },
{
    let (material_num, p1) = rand_unit_spec(p);
    let (jx, p2) = rand_unit_spec(p1);
    let (jz, p3) = rand_unit_spec(p2);
    if material_num.raw < 52429 {
        let (a1, p4) = random_range_spec(p3, Fx { raw: 0 }, Fx { raw: SCALE });
        let (a2, p5) = random_range_spec(p4, Fx { raw: 0 }, Fx { raw: SCALE });
        lemma_rand_range_unit(p3, Fx { raw: 0 }, Fx { raw: SCALE });
        lemma_rand_range_unit(p4, Fx { raw: 0 }, Fx { raw: SCALE });
        assert(spec_valid_color(a1) && spec_valid_color(a2));
        crate::vec3::lemma_hadamard_attenuates(a1, a2);
    } else if material_num.raw < 62259 {
        let (alb, p4) = random_range_spec(p3, Fx { raw: 32768 }, Fx { raw: SCALE });
        let (fz, p5) = rand_range_spec(p4, Fx { raw: 0 }, Fx { raw: 32768 });
        lemma_rand_range_unit(p3, Fx { raw: 32768 }, Fx { raw: SCALE });
        lemma_rand_range_scalar(p4, Fx { raw: 0 }, Fx { raw: 32768 });
    }
}

/// A scalar drawn from a subrange of the unit interval stays in the unit
/// interval.
proof fn lemma_rand_range_scalar(p: Prng, min: Fx, max: Fx)
    requires
        0 <= min.raw,
        min.raw <= max.raw,
        max.raw <= SCALE,
    ensures
        min.raw <= rand_range_spec(p, min, max).0.raw <= max.raw,
{
    let (u, p2) = rand_unit_spec(p);
    let span = max.minus_spec(min);
    crate::fixed::lemma_times_unit_interval(u, span);
}

/// A color drawn componentwise from a subrange of the unit interval is a
/// valid color.
proof fn lemma_rand_range_unit(p: Prng, min: Fx, max: Fx)
    requires
        0 <= min.raw,
        min.raw <= max.raw,
        max.raw <= SCALE,
    ensures
        spec_valid_color(random_range_spec(p, min, max).0),
{
    let (a, p1) = rand_range_spec(p, min, max);
    let (b, p2) = rand_range_spec(p1, min, max);
    let (c, p3) = rand_range_spec(p2, min, max);
    lemma_rand_range_scalar(p, min, max);
    lemma_rand_range_scalar(p1, min, max);
    lemma_rand_range_scalar(p2, min, max);
}

/// Build the demonstration scene from the stream; every sphere in the
/// result is well formed, so the world can be rendered directly.
#[verifier::rlimit(60)]
pub fn gen_random_scene(rng: &mut Prng) -> (world: HittableList)
    ensures
        (world.objects@, *final(rng)) == gen_random_scene_spec(*old(rng)),
        world_wf(world.objects@),
{
    let ghost p0 = *rng;
    let mut world = HittableList::empty();
    let ground_material = Lambertian::new(
        Vec3 { e0: Fx { raw: 32768 }, e1: Fx { raw: 32768 }, e2: Fx { raw: 32768 } },
    );
    let ground_sphere = Sphere::new(
        Vec3 { e0: Fx { raw: 0 }, e1: Fx { raw: -65536000i64 }, e2: Fx { raw: 0 } },
        Fx { raw: 65536000 },
        Material::Lambertian(ground_material),
    );
    world.add(ground_sphere);
    proof {
        assert(world.objects@ =~= seq![ground_sphere_spec()]);
    }
    let mut k: i32 = 0;
    while k < GRID_CELLS
        invariant
            0 <= k <= GRID_CELLS,
            (world.objects@, *rng) == scene_prefix_spec(k as int, p0),
            world_wf(world.objects@),
        decreases GRID_CELLS - k,
    {
        let a = k / 22 - 11;
        let b = k % 22 - 11;
        let ghost p_cell = *rng;
        let material_num = rand_unit(rng);
        let jx = rand_unit(rng);
        let jz = rand_unit(rng);
        let cx = fx_i32(a).plus(Fx { raw: 58982 }.times(jx));
        let cz = fx_i32(b).plus(Fx { raw: 58982 }.times(jz));
        let center = Vec3 { e0: cx, e1: Fx { raw: 13107 }, e2: cz };
        let anchor = Vec3 { e0: Fx { raw: 262144 }, e1: Fx { raw: 13107 }, e2: Fx { raw: 0 } };
        proof {
            lemma_scene_cell_wf(a as int, b as int, p_cell);
        }
        if center.minus(&anchor).length().raw > 58982 {
            let material: Material = if material_num.raw < 52429 {
                let a1 = Vec3::random_range(Fx { raw: 0 }, Fx { raw: SCALE }, rng);
                let a2 = Vec3::random_range(Fx { raw: 0 }, Fx { raw: SCALE }, rng);
                Material::Lambertian(Lambertian { albedo: a1.hadamard(&a2) })
            } else if material_num.raw < 62259 {
                let alb = Vec3::random_range(Fx { raw: 32768 }, Fx { raw: SCALE }, rng);
                let fz = rand_range(rng, Fx { raw: 0 }, Fx { raw: 32768 });
                Material::Metal(Metal { albedo: alb, fuzziness: fz })
            } else {
                Material::Dielectric(Dielectric { refractive_index: Fx { raw: 98304 } })
            };
            world.add(Sphere { center, radius: Fx { raw: 13107 }, material });
        }
        k = k + 1;
    }
    let material_dielec = Dielectric::new(Fx { raw: 98304 });
    world.add(
        Sphere::new(
            Vec3 { e0: Fx { raw: 0 }, e1: Fx { raw: 65536 }, e2: Fx { raw: 0 } },
            Fx { raw: 65536 },
            Material::Dielectric(material_dielec),
        ),
    );
    let material_lamb = Lambertian::new(
        Vec3 { e0: Fx { raw: 26214 }, e1: Fx { raw: 13107 }, e2: Fx { raw: 6554 } },
    );
    world.add(
        Sphere::new(
            Vec3 { e0: Fx { raw: -262144i64 }, e1: Fx { raw: 65536 }, e2: Fx { raw: 0 } },
            Fx { raw: 65536 },
            Material::Lambertian(material_lamb),
        ),
    );
    let material_metal = Metal::new(
        Vec3 { e0: Fx { raw: 45875 }, e1: Fx { raw: 39322 }, e2: Fx { raw: 32768 } },
        Fx { raw: 0 },
    );
    world.add(
        Sphere::new(
            Vec3 { e0: Fx { raw: 262144 }, e1: Fx { raw: 65536 }, e2: Fx { raw: 0 } },
            Fx { raw: 65536 },
            Material::Metal(material_metal),
        ),
    );
    proof {
        assert(world.objects@ =~= scene_prefix_spec(GRID_CELLS as int, p0).0
            + feature_spheres_spec());
    }
    world
}

/// A whole-valued scalar for a small signed grid coordinate.
fn fx_i32(n: i32) -> (r: Fx)
    requires
        -1000 <= n <= 1000,
    ensures
        r == fx_index(n as int),
{
    Fx::from_raw((n as i64) * SCALE)
}

} // verus!
