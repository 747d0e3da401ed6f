//! Per-pixel sample accumulation and the random direction helpers used by
//! the materials and the camera lens.

use vstd::prelude::*;
use crate::fixed::{Fx, fxr, SCALE};
use crate::rng::Prng;
use crate::vec3::{Vec3, Color};

verus! {

/// How often rejection sampling redraws before settling on a safe fallback
/// point; 64 straight rejections have vanishing probability.
pub const REJECT_TRIES: u32 = 64;

/// Collects radiance samples for one pixel and reduces them to their mean.
#[derive(Clone, Copy, Debug)]
pub struct ColorSampler {
    pub sample_num: i32,
    pub acc: Color,
}

/// The state of a sampler that holds no samples.
pub open spec fn empty_sampler() -> ColorSampler {
    ColorSampler {
        sample_num: 0,
        acc: Vec3 { e0: Fx { raw: 0 }, e1: Fx { raw: 0 }, e2: Fx { raw: 0 } },
    }
}

impl ColorSampler {
    pub open spec fn add_spec(self, c: Color) -> ColorSampler {
        ColorSampler { sample_num: (self.sample_num + 1) as i32, acc: self.acc.plus_spec(c) }
    }

    /// The mean of the accumulated samples, and the reset state.
    pub open spec fn get_and_reset_spec(self) -> (Color, ColorSampler) {
        (self.acc.div_scalar_spec(fxr(self.sample_num * SCALE)), empty_sampler())
    }

    pub fn new() -> (r: ColorSampler)
        ensures
            r == empty_sampler(),
    {
        ColorSampler { sample_num: 0, acc: Vec3::zero() }
    }

    /// Record one radiance sample.
    pub fn add(&mut self, c: &Color)
        requires
            old(self).sample_num < 0x7FFF_FFFF,
        ensures
            *final(self) == old(self).add_spec(*c),
    {
        self.sample_num = self.sample_num + 1;
        self.acc.add_cum(c);
    }

    /// The mean of all samples added since the last reset; afterwards the
    /// accumulator is empty again.
    pub fn get_and_reset(&mut self) -> (res: Color)
        ensures
            (res, *final(self)) == old(self).get_and_reset_spec(),
    {
        let n = Fx::from_raw((self.sample_num as i64) * SCALE);
        let res = self.acc.div_scalar(n);
        self.sample_num = 0;
        self.acc = Vec3::zero();
        res
    }
}

/// Folding a sequence of samples into a sampler, first element first.
pub open spec fn add_all(s: ColorSampler, cs: Seq<Color>) -> ColorSampler
    decreases cs.len(),
{
    if cs.len() == 0 {
        s
    } else {
        add_all(s.add_spec(cs.first()), cs.drop_first())
    }
}

/// The sampler counts exactly the samples added to it, so the mean it
/// reports divides by the number of samples since the last reset.
pub proof fn lemma_add_all_counts(s: ColorSampler, cs: Seq<Color>)
    requires
        0 <= s.sample_num,
        s.sample_num + cs.len() < 0x8000_0000,
    ensures
        add_all(s, cs).sample_num == s.sample_num + cs.len(),
    decreases cs.len(),
{
    if cs.len() > 0 {
        lemma_add_all_counts(s.add_spec(cs.first()), cs.drop_first());
    }
}

/// After `get_and_reset`, the sampler holds no samples: whatever was
/// accumulated before, adding a fresh batch and taking the mean again sees
/// only that batch.
pub proof fn lemma_reset_forgets(s: ColorSampler, cs: Seq<Color>)
    ensures
        s.get_and_reset_spec().1 == empty_sampler(),
        add_all(s.get_and_reset_spec().1, cs).get_and_reset_spec().0 == add_all(
            empty_sampler(),
            cs,
        ).get_and_reset_spec().0,
{
}

/// A coordinate uniform over `[-1, 1)`, as `2 * (u - 1/2)` of a unit draw.
pub open spec fn rand_coord_spec(p: Prng) -> (Fx, Prng) {
    let (u, p2) = p.next_spec();
    (Fx { raw: (2 * (u % 65536) - 65536) as i64 }, p2)
}

/// Returns a random scalar in `[-1, 1)`.
pub fn rand_coord(rng: &mut Prng) -> (r: Fx)
    ensures
        (r, *final(rng)) == rand_coord_spec(*old(rng)),
{
    let u = rng.next_u64();
    let m = (u % 65536) as i64;
    Fx { raw: 2 * m - 65536 }
}

/// A scalar uniform over `[0, 1)`.
pub open spec fn rand_unit_spec(p: Prng) -> (Fx, Prng) {
    let (u, p2) = p.next_spec();
    (Fx { raw: (u % 65536) as i64 }, p2)
}

/// Returns a random scalar in `[0, 1)`.
pub fn rand_unit(rng: &mut Prng) -> (r: Fx)
    ensures
        (r, *final(rng)) == rand_unit_spec(*old(rng)),
        0 <= r.raw < SCALE,
{
    let u = rng.next_u64();
    Fx { raw: (u % 65536) as i64 }
}

/// A scalar uniform over `[min, max)`: `min + u * (max - min)`.
pub open spec fn rand_range_spec(p: Prng, min: Fx, max: Fx) -> (Fx, Prng) {
    let (u, p2) = rand_unit_spec(p);
    (min.plus_spec(u.times_spec(max.minus_spec(min))), p2)
}

/// Returns a random scalar in `[min, max)`.
pub fn rand_range(rng: &mut Prng, min: Fx, max: Fx) -> (r: Fx)
    ensures
        (r, *final(rng)) == rand_range_spec(*old(rng), min, max),
{
    let u = rand_unit(rng);
    min.plus(u.times(max.minus(min)))
}

/// A vector with every component uniform over `[min, max)`.
pub open spec fn random_range_spec(p: Prng, min: Fx, max: Fx) -> (Vec3, Prng) {
    let (a, p1) = rand_range_spec(p, min, max);
    let (b, p2) = rand_range_spec(p1, min, max);
    let (c, p3) = rand_range_spec(p2, min, max);
    (Vec3 { e0: a, e1: b, e2: c }, p3)
}

pub open spec fn random_in_unit_cube_spec(p: Prng) -> (Vec3, Prng) {
    let (a, p1) = rand_coord_spec(p);
    let (b, p2) = rand_coord_spec(p1);
    let (c, p3) = rand_coord_spec(p2);
    (Vec3 { e0: a, e1: b, e2: c }, p3)
}

/// The fallback point used when rejection sampling runs out of tries: a
/// fixed point well inside the unit ball.
pub open spec fn fallback_in_sphere() -> Vec3 {
    Vec3 { e0: Fx { raw: 32768 }, e1: Fx { raw: 0 }, e2: Fx { raw: 0 } }
}

/// Rejection sampling of the unit ball from the unit cube, with at most
/// `tries` redraws after the first candidate.
pub open spec fn random_in_unit_sphere_rec_spec(p: Prng, tries: nat) -> (Vec3, Prng)
    decreases tries,
{
    let (c, p2) = random_in_unit_cube_spec(p);
    if c.length_squared_spec().raw < SCALE {
        (c, p2)
    } else if tries == 0 {
        (fallback_in_sphere(), p2)
    } else {
        random_in_unit_sphere_rec_spec(p2, (tries - 1) as nat)
    }
}

pub open spec fn random_in_unit_sphere_spec(p: Prng) -> (Vec3, Prng) {
    random_in_unit_sphere_rec_spec(p, REJECT_TRIES as nat)
}

/// Whatever the stream, the sampled point lies strictly inside the unit
/// ball.
pub proof fn lemma_unit_sphere_sample_inside(p: Prng, tries: nat)
    ensures
        random_in_unit_sphere_rec_spec(p, tries).0.length_squared_spec().raw < SCALE,
    decreases tries,
{
    let (c, p2) = random_in_unit_cube_spec(p);
    if c.length_squared_spec().raw < SCALE {
    } else if tries == 0 {
        assert(fallback_in_sphere().length_squared_spec().raw == 16384);
    } else {
        lemma_unit_sphere_sample_inside(p2, (tries - 1) as nat);
    }
}

pub open spec fn random_unit_vector_spec(p: Prng) -> (Vec3, Prng) {
    let (v, p2) = random_in_unit_sphere_spec(p);
    (v.unit_vector_spec(), p2)
}

pub open spec fn random_in_hemisphere_spec(normal: Vec3, p: Prng) -> (Vec3, Prng) {
    let (v, p2) = random_in_unit_sphere_spec(p);
    if v.dot_spec(normal).raw > 0 {
        (v, p2)
    } else {
        (v.neg_spec(), p2)
    }
}

/// The first lens-disk candidate has no depth; redraws fall back to cube
/// samples whose first two coordinates still land inside the unit disk.
pub open spec fn random_in_unit_disk_rec_spec(p: Prng, tries: nat) -> (Vec3, Prng)
    decreases tries,
{
    let (c, p2) = random_in_unit_cube_spec(p);
    if c.length_squared_spec().raw < SCALE {
        (c, p2)
    } else if tries == 0 {
        (fallback_in_sphere(), p2)
    } else {
        random_in_unit_disk_rec_spec(p2, (tries - 1) as nat)
    }
}

pub open spec fn random_in_unit_disk_spec(p: Prng) -> (Vec3, Prng) {
    let (a, p1) = rand_coord_spec(p);
    let (b, p2) = rand_coord_spec(p1);
    let c = Vec3 { e0: a, e1: b, e2: Fx { raw: 0 } };
    if c.length_squared_spec().raw < SCALE {
        (c, p2)
    } else {
        random_in_unit_disk_rec_spec(p2, REJECT_TRIES as nat)
    }
}

impl Vec3 {
    /// A vector with every component uniform over `[min, max)`.
    pub fn random_range(min: Fx, max: Fx, rng: &mut Prng) -> (v: Vec3)
        ensures
            (v, *final(rng)) == random_range_spec(*old(rng), min, max),
    {
        let a = rand_range(rng, min, max);
        let b = rand_range(rng, min, max);
        let c = rand_range(rng, min, max);
        Vec3 { e0: a, e1: b, e2: c }
    }

    /// A point with every coordinate uniform over `[-1, 1)`.
    pub fn random_in_unit_cube(rng: &mut Prng) -> (v: Vec3)
        ensures
            (v, *final(rng)) == random_in_unit_cube_spec(*old(rng)),
    {
        let a = rand_coord(rng);
        let b = rand_coord(rng);
        let c = rand_coord(rng);
        Vec3 { e0: a, e1: b, e2: c }
    }

    /// A point strictly inside the unit ball, by rejection sampling.
    pub fn random_in_unit_sphere(rng: &mut Prng) -> (v: Vec3)
        ensures
            (v, *final(rng)) == random_in_unit_sphere_spec(*old(rng)),
            v.length_squared_spec().raw < SCALE,
    {
        proof {
            lemma_unit_sphere_sample_inside(*old(rng), REJECT_TRIES as nat);
        }
        Vec3::random_in_unit_sphere_rec(rng, REJECT_TRIES)
    }

    fn random_in_unit_sphere_rec(rng: &mut Prng, tries: u32) -> (v: Vec3)
        ensures
            (v, *final(rng)) == random_in_unit_sphere_rec_spec(*old(rng), tries as nat),
        decreases tries,
    {
        let c = Vec3::random_in_unit_cube(rng);
        if c.length_squared().raw < SCALE {
            c
        } else if tries == 0 {
            Vec3 { e0: Fx { raw: 32768 }, e1: Fx { raw: 0 }, e2: Fx { raw: 0 } }
        } else {
            Vec3::random_in_unit_sphere_rec(rng, tries - 1)
        }
    }

    /// A direction of (approximately) unit length, uniform over the sphere.
    pub fn random_unit_vector(rng: &mut Prng) -> (v: Vec3)
        ensures
            (v, *final(rng)) == random_unit_vector_spec(*old(rng)),
    {
        let s = Vec3::random_in_unit_sphere(rng);
        s.unit_vector()
    }

    /// A point in the unit ball on the same side as `normal`.
    pub fn random_in_hemisphere(normal: Vec3, rng: &mut Prng) -> (v: Vec3)
        ensures
            (v, *final(rng)) == random_in_hemisphere_spec(normal, *old(rng)),
    {
        let in_unit_sphere = Vec3::random_in_unit_sphere(rng);
        if in_unit_sphere.dot(&normal).raw > 0 {
            in_unit_sphere
        } else {
            in_unit_sphere.neg()
        }
    }

    /// A lens offset inside the unit disk (depth coordinate zero on the
    /// first draw).
    pub fn random_in_unit_disk(rng: &mut Prng) -> (v: Vec3)
        ensures
            (v, *final(rng)) == random_in_unit_disk_spec(*old(rng)),
    {
        let a = rand_coord(rng);
        let b = rand_coord(rng);
        let c = Vec3 { e0: a, e1: b, e2: Fx { raw: 0 } };
        if c.length_squared().raw < SCALE {
            c
        } else {
            Vec3::random_in_unit_disk_rec(rng, REJECT_TRIES)
        }
    }

    fn random_in_unit_disk_rec(rng: &mut Prng, tries: u32) -> (v: Vec3)
        ensures
            (v, *final(rng)) == random_in_unit_disk_rec_spec(*old(rng), tries as nat),
        decreases tries,
    {
        let c = Vec3::random_in_unit_cube(rng);
        if c.length_squared().raw < SCALE {
            c
        } else if tries == 0 {
            Vec3 { e0: Fx { raw: 32768 }, e1: Fx { raw: 0 }, e2: Fx { raw: 0 } }
        } else {
            Vec3::random_in_unit_disk_rec(rng, tries - 1)
        }
    }
}

} // verus!
