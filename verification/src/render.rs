//! The path-tracing integrator and the per-pixel sampling loop: trace a
//! ray through the scene, bounce it off materials until the recursion
//! budget runs out, and average many jittered samples into one pixel.

use vstd::prelude::*;
use crate::fixed::{Fx, fxr, SCALE};
use crate::vec3::{
    Vec3,
    Color,
    color_le,
    spec_valid_color,
    spec_color_string,
    color_string,
    clamp01,
    clamp01_spec,
};
use crate::ray::Ray;
use crate::rng::{Prng, row_seed, row_seed_spec};
use crate::sphere::{Sphere, Validator, interval_validator};
use crate::hittable::Hittable;
use crate::hittable_list::{HittableList, world_wf, list_hit_spec, lemma_list_hit_wf};
use crate::materials::lemma_scatter_attenuation_valid;
use crate::sampling::{ColorSampler, empty_sampler, rand_unit, rand_unit_spec};
use crate::camera::{Camera, get_ray_spec};
use vstd::string::StringExecFns;

verus! {

/// Raw lower bound on accepted intersection distances: about 1e-4, so a
/// scattered ray cannot immediately re-hit the surface it left.
pub const SHADOW_ACNE_RAW: i64 = 7;

/// Zero radiance.
pub open spec fn black() -> Color {
    Vec3 { e0: Fx { raw: 0 }, e1: Fx { raw: 0 }, e2: Fx { raw: 0 } }
}

/// The validity interval used by the integrator: distances above the
/// shadow-acne epsilon, unbounded above.
pub open spec fn shadow_acne_validator() -> Validator {
    Validator { min: Some(Fx { raw: SHADOW_ACNE_RAW }), max: None }
}

/// Background radiance: a vertical gradient from white to sky blue keyed
/// by the ray's normalized vertical component, remapped from `[-1, 1]` to
/// `[0, 1]` (and clamped there, which guards degenerate directions).
pub open spec fn background_spec(r: Ray) -> Color {
    let one = Fx { raw: SCALE };
    let dir = r.unit_direction_spec();
    let t = clamp01_spec(Fx { raw: 32768 }.times_spec(dir.e1.plus_spec(one)));
    let white = Vec3 { e0: one, e1: one, e2: one };
    let sky = Vec3 { e0: Fx { raw: 13107 }, e1: Fx { raw: 26214 }, e2: one };
    white.scale_spec(one.minus_spec(t)).plus_spec(sky.scale_spec(t))
}

fn background(r: &Ray) -> (c: Color)
    ensures
        c == background_spec(*r),
        spec_valid_color(c),
{
    let one = Fx { raw: SCALE };
    let dir = r.unit_direction();
    let t = clamp01(Fx { raw: 32768 }.times(dir.e1.plus(one)));
    let white = Vec3 { e0: one, e1: one, e2: one };
    let sky = Vec3 { e0: Fx { raw: 13107 }, e1: Fx { raw: 26214 }, e2: one };
    let omt = one.minus(t);
    let a = white.scale(omt);
    let b = sky.scale(t);
    proof {
        crate::fixed::lemma_times_unit_interval(white.e0, omt);
        crate::fixed::lemma_times_unit_interval(white.e1, omt);
        crate::fixed::lemma_times_unit_interval(white.e2, omt);
        crate::fixed::lemma_times_unit_interval(sky.e0, t);
        crate::fixed::lemma_times_unit_interval(sky.e1, t);
        crate::fixed::lemma_times_unit_interval(sky.e2, t);
    }
    a.plus(&b)
}

/// One traced path: absorb at depth zero, scatter and recurse on a hit,
/// and fall back to the background gradient when nothing is hit.
pub open spec fn ray_to_color_spec(r: Ray, spheres: Seq<Sphere>, depth: nat, p: Prng) -> (
    Color,
    Prng,
)
    decreases depth,
{
    if depth == 0 {
        (black(), p)
    } else {
        match list_hit_spec(spheres, r, shadow_acne_validator()) {
            Some(hit) => {
                let (sc, p2) = hit.material.scatter_spec(r, hit, p);
                match sc {
                    Some(sr) => {
                        let (rec, p3) = ray_to_color_spec(sr.ray, spheres, (depth - 1) as nat, p2);
                        (sr.attenuation.hadamard_spec(rec), p3)
                    },
                    None => (black(), p2),
                }
            },
            None => (background_spec(r), p),
        }
    }
}

/// With the recursion budget exhausted, a path contributes no radiance.
pub proof fn lemma_depth_exhausted_black(r: Ray, spheres: Seq<Sphere>, p: Prng)
    ensures
        ray_to_color_spec(r, spheres, 0, p).0 == black(),
{
}

/// The background gradient is a valid color, whatever the ray.
pub proof fn lemma_background_valid(r: Ray)
    ensures
        spec_valid_color(background_spec(r)),
{
    let one = Fx { raw: SCALE };
    let dir = r.unit_direction_spec();
    let t = clamp01_spec(Fx { raw: 32768 }.times_spec(dir.e1.plus_spec(one)));
    let white = Vec3 { e0: one, e1: one, e2: one };
    let sky = Vec3 { e0: Fx { raw: 13107 }, e1: Fx { raw: 26214 }, e2: one };
    let omt = one.minus_spec(t);
    crate::fixed::lemma_times_unit_interval(white.e0, omt);
    crate::fixed::lemma_times_unit_interval(white.e1, omt);
    crate::fixed::lemma_times_unit_interval(white.e2, omt);
    crate::fixed::lemma_times_unit_interval(sky.e0, t);
    crate::fixed::lemma_times_unit_interval(sky.e1, t);
    crate::fixed::lemma_times_unit_interval(sky.e2, t);
}

/// Traced radiance is a valid color: every channel lies in `[0, 1]`.
pub proof fn lemma_ray_to_color_valid(r: Ray, spheres: Seq<Sphere>, depth: nat, p: Prng)
    requires
        world_wf(spheres),
    ensures
        spec_valid_color(ray_to_color_spec(r, spheres, depth, p).0),
    decreases depth,
{
    if depth == 0 {
    } else {
        lemma_list_hit_wf(spheres, r, shadow_acne_validator());
        match list_hit_spec(spheres, r, shadow_acne_validator()) {
            Some(hit) => {
                let (sc, p2) = hit.material.scatter_spec(r, hit, p);
                lemma_scatter_attenuation_valid(hit.material, r, hit, p);
                match sc {
                    Some(sr) => {
                        lemma_ray_to_color_valid(sr.ray, spheres, (depth - 1) as nat, p2);
                        crate::vec3::lemma_hadamard_attenuates(
                            sr.attenuation,
                            ray_to_color_spec(sr.ray, spheres, (depth - 1) as nat, p2).0,
                        );
                    },
                    None => {},
                }
            },
            None => {
                lemma_background_valid(r);
            },
        }
    }
}

/// Monotonic darkening: with the same stream, shrinking the recursion
/// budget never brightens a traced path — each level of exhaustion can
/// only remove light, so radiance falls monotonically as the depth limit
/// goes to zero (and at zero it is black).
pub proof fn lemma_depth_monotone(r: Ray, spheres: Seq<Sphere>, depth: nat, p: Prng)
    requires
        world_wf(spheres),
    ensures
        color_le(
            ray_to_color_spec(r, spheres, depth, p).0,
            ray_to_color_spec(r, spheres, depth + 1, p).0,
        ),
    decreases depth,
{
    if depth == 0 {
        lemma_ray_to_color_valid(r, spheres, 1, p);
    } else {
        lemma_list_hit_wf(spheres, r, shadow_acne_validator());
        match list_hit_spec(spheres, r, shadow_acne_validator()) {
            Some(hit) => {
                let (sc, p2) = hit.material.scatter_spec(r, hit, p);
                lemma_scatter_attenuation_valid(hit.material, r, hit, p);
                match sc {
                    Some(sr) => {
                        lemma_depth_monotone(sr.ray, spheres, (depth - 1) as nat, p2);
                        let shallow = ray_to_color_spec(sr.ray, spheres, (depth - 1) as nat, p2).0;
                        let deep = ray_to_color_spec(sr.ray, spheres, depth, p2).0;
                        lemma_ray_to_color_valid(sr.ray, spheres, (depth - 1) as nat, p2);
                        crate::vec3::lemma_hadamard_mono(sr.attenuation, shallow, deep);
                    },
                    None => {},
                }
            },
            None => {},
        }
    }
}

/// Trace one ray through the world; the result is always a valid color,
/// so radiance reaching the output stage lies in `[0, 1]` per channel.
pub fn ray_to_color(r: &Ray, world: &HittableList, recursion_depth: u32, rng: &mut Prng) -> (c:
    Color)
    requires
        world_wf(world.objects@),
    ensures
        (c, *final(rng)) == ray_to_color_spec(
            *r,
            world.objects@,
            recursion_depth as nat,
            *old(rng),
        ),
        spec_valid_color(c),
    decreases recursion_depth,
{
    if recursion_depth == 0 {
        return Vec3::zero();
    }
    let validator = interval_validator(Some(Fx { raw: SHADOW_ACNE_RAW }), None);
    match world.hit(r, &validator) {
        Some(hit) => {
            let ghost p_before = *rng;
            match hit.material.scatter(r, &hit, rng) {
                Some(scatter_result) => {
                    let rec = ray_to_color(&scatter_result.ray, world, recursion_depth - 1, rng);
                    proof {
                        lemma_scatter_attenuation_valid(hit.material, *r, hit, p_before);
                        crate::vec3::lemma_hadamard_attenuates(scatter_result.attenuation, rec);
                    }
                    scatter_result.attenuation.hadamard(&rec)
                },
                None => Vec3::zero(),
            }
        },
        None => background(r),
    }
}

/// A whole-valued scalar for a pixel index or image dimension.
pub open spec fn fx_index(n: int) -> Fx {
    fxr(n * 65536)
}

fn fx_u32(n: u32) -> (r: Fx)
    ensures
        r == fx_index(n as int),
{
    Fx::from_raw((n as i64) * SCALE)
}

/// The sampling loop for one pixel: `remaining` more jittered primary
/// rays traced and accumulated.
pub open spec fn sample_loop_spec(
    cam: Camera,
    spheres: Seq<Sphere>,
    px: int,
    py: int,
    width: int,
    height: int,
    remaining: nat,
    depth: nat,
    smp: ColorSampler,
    p: Prng,
) -> (ColorSampler, Prng)
    decreases remaining,
{
    if remaining == 0 {
        (smp, p)
    } else {
        let (ju, p1) = rand_unit_spec(p);
        let u = fx_index(px).plus_spec(ju).div_spec(fx_index(width - 1));
        let (jv, p2) = rand_unit_spec(p1);
        let v = fx_index(py).plus_spec(jv).div_spec(fx_index(height - 1));
        let (ray, p3) = get_ray_spec(cam, u, v, p2);
        let (c, p4) = ray_to_color_spec(ray, spheres, depth, p3);
        sample_loop_spec(
            cam,
            spheres,
            px,
            py,
            width,
            height,
            (remaining - 1) as nat,
            depth,
            smp.add_spec(c),
            p4,
        )
    }
}

/// One finished pixel: the mean of the samples, tone mapped by the
/// square-root curve, clamped into the unit cube for quantization.
pub open spec fn render_pixel_spec(
    cam: Camera,
    spheres: Seq<Sphere>,
    px: int,
    py: int,
    width: int,
    height: int,
    samples: nat,
    depth: nat,
    p: Prng,
) -> (Color, Prng) {
    let (smp, p2) = sample_loop_spec(
        cam,
        spheres,
        px,
        py,
        width,
        height,
        samples,
        depth,
        empty_sampler(),
        p,
    );
    (smp.get_and_reset_spec().0.gamma_correct_spec().clamp_unit_spec(), p2)
}

/// Estimate one pixel: trace `samples` jittered rays and reduce them to
/// one gamma-corrected, clamped color.
pub fn render_pixel(
    camera: &Camera,
    world: &HittableList,
    px: u32,
    py: u32,
    width: u32,
    height: u32,
    samples: i32,
    depth: u32,
    rng: &mut Prng,
) -> (c: Color)
    requires
        world_wf(world.objects@),
        width >= 1,
        height >= 1,
        samples >= 1,
    ensures
        (c, *final(rng)) == render_pixel_spec(
            *camera,
            world.objects@,
            px as int,
            py as int,
            width as int,
            height as int,
            samples as nat,
            depth as nat,
            *old(rng),
        ),
        spec_valid_color(c),
{
    let ghost p0 = *rng;
    let ghost spheres = world.objects@;
    let mut color_sampler = ColorSampler::new();
    let mut k: i32 = 0;
    let wm1 = fx_u32(width - 1);
    let hm1 = fx_u32(height - 1);
    let pxf = fx_u32(px);
    let pyf = fx_u32(py);
    while k < samples
        invariant
            world_wf(spheres),
            world.objects@ == spheres,
            0 <= k <= samples,
            color_sampler.sample_num == k,
            wm1 == fx_index(width as int - 1),
            hm1 == fx_index(height as int - 1),
            pxf == fx_index(px as int),
            pyf == fx_index(py as int),
            sample_loop_spec(
                *camera,
                spheres,
                px as int,
                py as int,
                width as int,
                height as int,
                (samples - k) as nat,
                depth as nat,
                color_sampler,
                *rng,
            ) == sample_loop_spec(
                *camera,
                spheres,
                px as int,
                py as int,
                width as int,
                height as int,
                samples as nat,
                depth as nat,
                empty_sampler(),
                p0,
            ),
        decreases samples - k,
    {
        let ju = rand_unit(rng);
        let u = pxf.plus(ju).divide(wm1);
        let jv = rand_unit(rng);
        let v = pyf.plus(jv).divide(hm1);
        let r = camera.get_ray(u, v, rng);
        let sample_color = ray_to_color(&r, world, depth, rng);
        color_sampler.add(&sample_color);
        k = k + 1;
    }
    let mean = color_sampler.get_and_reset();
    let toned = mean.gamma_correct();
    toned.clamp_unit()
}

/// The pixels of one scanline, leftmost first, each pixel rendered to its
/// `"r g b"` line followed by a newline.
pub open spec fn row_prefix_spec(
    cam: Camera,
    spheres: Seq<Sphere>,
    py: int,
    width: int,
    height: int,
    samples: nat,
    depth: nat,
    px_end: int,
    p0: Prng,
) -> (Seq<char>, Prng)
    decreases px_end,
    when px_end >= 0
{
    if px_end <= 0 {
        (Seq::empty(), p0)
    } else {
        let (sacc, p) = row_prefix_spec(
            cam,
            spheres,
            py,
            width,
            height,
            samples,
            depth,
            px_end - 1,
            p0,
        );
        let (c, p2) = render_pixel_spec(
            cam,
            spheres,
            px_end - 1,
            py,
            width,
            height,
            samples,
            depth,
            p,
        );
        (sacc + spec_color_string(c) + seq!['\n'], p2)
    }
}

/// Render scanline `py`: one output line per pixel, left to right.
#[verifier::rlimit(60)]
pub fn render_row(
    camera: &Camera,
    world: &HittableList,
    py: u32,
    width: u32,
    height: u32,
    samples: i32,
    depth: u32,
    rng: &mut Prng,
) -> (s: String)
    requires
        world_wf(world.objects@),
        width >= 1,
        height >= 1,
        samples >= 1,
    ensures
        (s@, *final(rng)) == row_prefix_spec(
            *camera,
            world.objects@,
            py as int,
            width as int,
            height as int,
            samples as nat,
            depth as nat,
            width as int,
            *old(rng),
        ),
{
    let ghost p0 = *rng;
    let ghost spheres = world.objects@;
    let mut s = String::new();
    let mut px: u32 = 0;
    proof {
        reveal_strlit("\n");
    }
    while px < width
        invariant
            world_wf(spheres),
            world.objects@ == spheres,
            0 <= px <= width,
            width >= 1,
            height >= 1,
            samples >= 1,
            (s@, *rng) == row_prefix_spec(
                *camera,
                spheres,
                py as int,
                width as int,
                height as int,
                samples as nat,
                depth as nat,
                px as int,
                p0,
            ),
        decreases width - px,
    {
        let pixel_color = render_pixel(camera, world, px, py, width, height, samples, depth, rng);
        let line = color_string(&pixel_color);
        s.append(line.as_str());
        s.append("\n");
        proof {
            reveal_strlit("\n");
            let (prev, pp) = row_prefix_spec(
                *camera,
                spheres,
                py as int,
                width as int,
                height as int,
                samples as nat,
                depth as nat,
                px as int,
                p0,
            );
            assert(s@ =~= prev + spec_color_string(pixel_color) + seq!['\n']);
        }
        px = px + 1;
    }
    s
}

/// The contents of output row `i` (top row first): scanline
/// `height - 1 - i` rendered with its own stream derived from the seed.
pub open spec fn render_image_row_spec(
    cam: Camera,
    spheres: Seq<Sphere>,
    width: int,
    height: int,
    samples: nat,
    depth: nat,
    seed: u64,
    i: int,
) -> Seq<char> {
    let py = height - 1 - i;
    row_prefix_spec(
        cam,
        spheres,
        py,
        width,
        height,
        samples,
        depth,
        width,
        Prng { state: row_seed_spec(seed, py as u32) },
    ).0
}

/// Render the whole image: scanlines from the top of the image down, each
/// with a private stream derived from the seed and its row index.
pub fn render_image(
    camera: &Camera,
    world: &HittableList,
    width: u32,
    height: u32,
    samples: i32,
    depth: u32,
    seed: u64,
) -> (rows: Vec<String>)
    requires
        world_wf(world.objects@),
        width >= 1,
        height >= 1,
        samples >= 1,
    ensures
        rows@.len() == height as int,
        forall|i: int|
            0 <= i < height as int ==> (#[trigger] rows@[i])@ == render_image_row_spec(
                *camera,
                world.objects@,
                width as int,
                height as int,
                samples as nat,
                depth as nat,
                seed,
                i,
            ),
{
    let mut rows: Vec<String> = Vec::new();
    let mut i: u32 = 0;
    while i < height
        invariant
            world_wf(world.objects@),
            width >= 1,
            height >= 1,
            samples >= 1,
            0 <= i <= height,
            rows@.len() == i as int,
            forall|j: int|
                0 <= j < i as int ==> (#[trigger] rows@[j])@ == render_image_row_spec(
                    *camera,
                    world.objects@,
                    width as int,
                    height as int,
                    samples as nat,
                    depth as nat,
                    seed,
                    j,
                ),
        decreases height - i,
    {
        let py = height - 1 - i;
        let mut row_rng = Prng::from_seed(row_seed(seed, py));
        let s = render_row(camera, world, py, width, height, samples, depth, &mut row_rng);
        rows.push(s);
        i = i + 1;
    }
    rows
}

/// Determinism: the image is a function of the seed, the configuration
/// and the scene alone, so two renders with identical inputs produce
/// byte-identical output rows.
pub proof fn lemma_render_deterministic(
    cam: Camera,
    spheres: Seq<Sphere>,
    width: int,
    height: int,
    samples: nat,
    depth: nat,
    seed: u64,
    i: int,
    row1: Seq<char>,
    row2: Seq<char>,
)
    requires
        row1 == render_image_row_spec(cam, spheres, width, height, samples, depth, seed, i),
        row2 == render_image_row_spec(cam, spheres, width, height, samples, depth, seed, i),
    ensures
        row1 == row2,
{
}

} // verus!
