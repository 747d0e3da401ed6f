//! The perspective camera with lens aperture: builds an orthonormal basis
//! from the look vectors and maps normalized image coordinates to world
//! rays, with an optional random lens offset for depth of field.

use vstd::prelude::*;
use crate::fixed::{Fx, FX_SAT};
use crate::vec3::{Vec3, Loc};
use crate::ray::Ray;
use crate::rng::Prng;
use crate::sampling::random_in_unit_disk_spec;

verus! {

/// The circle constant at this precision: round(pi * 65536).
pub const PI_RAW: i64 = 205887;

/// Degrees to radians: `deg * pi / 180`.
pub open spec fn radians_spec(deg: Fx) -> Fx {
    deg.times_spec(Fx { raw: PI_RAW }).div_spec(Fx { raw: 11796480 })
}

/// Sine by its degree-7 Taylor polynomial, adequate on `[0, pi/2]` at
/// this precision: `t - t^3/6 + t^5/120 - t^7/5040`.
pub open spec fn sin_spec(t: Fx) -> Fx {
    let t2 = t.times_spec(t);
    let t3 = t2.times_spec(t);
    let t5 = t3.times_spec(t2);
    let t7 = t5.times_spec(t2);
    t.minus_spec(t3.div_spec(Fx { raw: 393216 })).plus_spec(
        t5.div_spec(Fx { raw: 7864320 }),
    ).minus_spec(t7.div_spec(Fx { raw: 330301440 }))
}

/// Cosine by its degree-6 Taylor polynomial:
/// `1 - t^2/2 + t^4/24 - t^6/720`.
pub open spec fn cos_spec(t: Fx) -> Fx {
    let t2 = t.times_spec(t);
    let t4 = t2.times_spec(t2);
    let t6 = t4.times_spec(t2);
    Fx { raw: 65536 }.minus_spec(t2.div_spec(Fx { raw: 131072 })).plus_spec(
        t4.div_spec(Fx { raw: 1572864 }),
    ).minus_spec(t6.div_spec(Fx { raw: 47185920 }))
}

/// Tangent as sine over cosine; saturates where the cosine estimate is
/// not positive (field of view at or beyond a straight angle).
pub open spec fn tan_spec(t: Fx) -> Fx {
    let c = cos_spec(t);
    if c.raw <= 0 {
        Fx { raw: FX_SAT }
    } else {
        sin_spec(t).div_spec(c)
    }
}

fn radians(deg: Fx) -> (r: Fx)
    ensures
        r == radians_spec(deg),
{
    deg.times(Fx { raw: PI_RAW }).divide(Fx { raw: 11796480 })
}

fn sin_fx(t: Fx) -> (r: Fx)
    ensures
        r == sin_spec(t),
{
    let t2 = t.times(t);
    let t3 = t2.times(t);
    let t5 = t3.times(t2);
    let t7 = t5.times(t2);
    t.minus(t3.divide(Fx { raw: 393216 })).plus(t5.divide(Fx { raw: 7864320 })).minus(
        t7.divide(Fx { raw: 330301440 }),
    )
}

fn cos_fx(t: Fx) -> (r: Fx)
    ensures
        r == cos_spec(t),
{
    let t2 = t.times(t);
    let t4 = t2.times(t2);
    let t6 = t4.times(t2);
    Fx { raw: 65536 }.minus(t2.divide(Fx { raw: 131072 })).plus(
        t4.divide(Fx { raw: 1572864 }),
    ).minus(t6.divide(Fx { raw: 47185920 }))
}

fn tan_fx(t: Fx) -> (r: Fx)
    ensures
        r == tan_spec(t),
{
    let c = cos_fx(t);
    if c.raw <= 0 {
        Fx { raw: FX_SAT }
    } else {
        sin_fx(t).divide(c)
    }
}

pub struct Camera {
    pub origin: Loc,
    pub horiz: Loc,
    pub vert: Loc,
    pub lower_left_corner: Loc,
    pub lens_radius: Fx,
    pub u: Loc,
    pub v: Loc,
    pub w: Loc,
}

/// What `Camera::new` computes from its configuration.
pub open spec fn camera_new_spec(
    lookfrom: Loc,
    lookat: Loc,
    vup: Loc,
    vfov: Fx,
    aspect_ratio: Fx,
    aperture: Fx,
    focus_dist: Fx,
) -> Camera {
    let two = Fx { raw: 131072 };
    let theta = radians_spec(vfov);
    let h = tan_spec(theta.div_spec(two));
    let viewport_height = two.times_spec(h);
    let viewport_width = aspect_ratio.times_spec(viewport_height);
    let w = lookfrom.minus_spec(lookat).unit_vector_spec();
    let u = vup.cross_spec(w).unit_vector_spec();
    let v = w.cross_spec(u);
    let origin = lookfrom;
    let horiz = u.scale_spec(focus_dist.times_spec(viewport_width));
    let vert = v.scale_spec(focus_dist.times_spec(viewport_height));
    let lower_left_corner = origin.minus_spec(horiz.div_scalar_spec(two)).minus_spec(
        vert.div_scalar_spec(two),
    ).minus_spec(w.scale_spec(focus_dist));
    Camera {
        origin,
        horiz,
        vert,
        lower_left_corner,
        lens_radius: aperture.div_spec(two),
        u,
        v,
        w,
    }
}

/// The ray for normalized image coordinates `(s, t)`, with the origin
/// jittered on the lens disk.
pub open spec fn get_ray_spec(cam: Camera, s: Fx, t: Fx, p: Prng) -> (Ray, Prng) {
    let (d, p2) = random_in_unit_disk_spec(p);
    let rd = d.scale_spec(cam.lens_radius);
    let offset = cam.u.scale_spec(rd.e0).plus_spec(cam.v.scale_spec(rd.e1));
    let new_orig = cam.origin.plus_spec(offset);
    let ray_dir = cam.lower_left_corner.plus_spec(cam.horiz.scale_spec(s)).plus_spec(
        cam.vert.scale_spec(t),
    ).minus_spec(new_orig);
    (Ray { orig: new_orig, dir: ray_dir }, p2)
}

impl Camera {
    pub fn new(
        lookfrom: Loc,
        lookat: Loc,
        vup: Loc,
        vfov: Fx,
        aspect_ratio: Fx,
        aperture: Fx,
        focus_dist: Fx,
    ) -> (cam: Camera)
        ensures
            cam == camera_new_spec(lookfrom, lookat, vup, vfov, aspect_ratio, aperture, focus_dist),
    {
        let two = Fx { raw: 131072 };
        let theta = radians(vfov);
        let h = tan_fx(theta.divide(two));
        let viewport_height = two.times(h);
        let viewport_width = aspect_ratio.times(viewport_height);
        let w = lookfrom.minus(&lookat).unit_vector();
        let u = vup.cross(&w).unit_vector();
        let v = w.cross(&u);
        let origin = lookfrom;
        let horiz = u.scale(focus_dist.times(viewport_width));
        let vert = v.scale(focus_dist.times(viewport_height));
        let hh = horiz.div_scalar(two);
        let vh = vert.div_scalar(two);
        let fw = w.scale(focus_dist);
        let lower_left_corner = origin.minus(&hh).minus(&vh).minus(&fw);
        Camera {
            lower_left_corner,
            origin,
            horiz,
            vert,
            lens_radius: aperture.divide(two),
            u,
            v,
            w,
        }
    }

    /// The world-space ray through image point `(s, t)` in `[0, 1]^2`.
    pub fn get_ray(&self, s: Fx, t: Fx, rng: &mut Prng) -> (r: Ray)
        ensures
            (r, *final(rng)) == get_ray_spec(*self, s, t, *old(rng)),
    {
        let d = Vec3::random_in_unit_disk(rng);
        let rd = d.scale(self.lens_radius);
        let ou = self.u.scale(rd.e0);
        let ov = self.v.scale(rd.e1);
        let offset = ou.plus(&ov);
        let new_orig = self.origin.plus(&offset);
        let hs = self.horiz.scale(s);
        let vt = self.vert.scale(t);
        let ray_dir = self.lower_left_corner.plus(&hs).plus(&vt).minus(&new_orig);
        Ray::new(new_orig, ray_dir)
    }
}

} // verus!
