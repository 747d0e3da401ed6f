//! Intersection records: where a ray met geometry, with the
//! outward-corrected unit normal and the material encountered there.

use vstd::prelude::*;
use crate::fixed::{Fx, abs_i, FX_SAT};
use crate::vec3::{Loc, approx_unit, vec_bounded, lemma_neg_preserves_length};
use crate::ray::Ray;
use crate::materials::{Material, material_wf};
use crate::sphere::Validator;

verus! {

/// The capability of being hit by a ray: given a ray and an acceptance
/// predicate on distances, produce the closest valid hit or none.  Each
/// implementation pins its answer with a specification function of its
/// own, and only ever reports well-formed hits at accepted distances.
pub trait Hittable: Sized {
    /// What the implementation assumes of itself.
    spec fn hittable_wf(&self) -> bool;

    /// The hit reported, as a function of the ray and the validator.
    spec fn hit_spec(&self, ray: Ray, validate_t: Validator) -> Option<Hit>;

    /// The closest hit whose distance the validator accepts, or `None`.
    fn hit(&self, ray: &Ray, validate_t: &Validator) -> (r: Option<Hit>)
        requires
            self.hittable_wf(),
        ensures
            r == self.hit_spec(*ray, *validate_t),
            match r {
                Some(h) => hit_wf(h) && validate_t.accepts_spec(h.t),
                None => true,
            },
    ;
}

/// Which side of the surface the ray came from.
#[derive(Clone, Copy, Debug, PartialEq, Eq, Structural)]
pub enum Surface {
    Inside,
    Outside,
}

/// One intersection: location, unit normal oriented against the incoming
/// ray, ray parameter, the material at the hit point, and the side hit.
#[derive(Clone, Copy, Debug)]
pub struct Hit {
    pub location: Loc,
    pub normal: Loc,
    pub t: Fx,
    pub material: Material,
    pub surface: Surface,
}

/// The invariant every hit record carries: the normal has unit length
/// within tolerance, all stored scalars are in range, and the material is
/// well formed.
pub open spec fn hit_wf(h: Hit) -> bool {
    &&& approx_unit(h.normal)
    &&& vec_bounded(h.normal)
    &&& material_wf(h.material)
    &&& abs_i(h.t.raw as int) <= FX_SAT as int
}

/// The outward-correction rule: when the ray and the geometric outward
/// normal agree in direction the surface was hit from inside, so the
/// stored normal is flipped and the side tagged accordingly.
pub open spec fn from_ray_spec(
    location: Loc,
    outward_normal: Loc,
    t: Fx,
    ray: Ray,
    material: Material,
) -> Hit {
    if ray.dir.dot_spec(outward_normal).raw > 0 {
        Hit { location, normal: outward_normal.neg_spec(), t, material, surface: Surface::Inside }
    } else {
        Hit { location, normal: outward_normal, t, material, surface: Surface::Outside }
    }
}

impl Hit {
    pub fn new(location: Loc, normal: Loc, t: Fx, material: Material, surface: Surface) -> (h:
        Hit)
        requires
            approx_unit(normal),
            vec_bounded(normal),
            material_wf(material),
            abs_i(t.raw as int) <= FX_SAT as int,
        ensures
            h == (Hit { location, normal, t, material, surface }),
            hit_wf(h),
    {
        Hit { location, normal, t, material, surface }
    }

    /// Build a hit from the geometric outward normal, orienting the stored
    /// normal against the incoming ray.
    pub fn from_ray(location: Loc, outward_normal: Loc, t: Fx, ray: &Ray, material: Material) -> (
        h: Hit)
        requires
            approx_unit(outward_normal),
            vec_bounded(outward_normal),
            material_wf(material),
            abs_i(t.raw as int) <= FX_SAT as int,
        ensures
            h == from_ray_spec(location, outward_normal, t, *ray, material),
            hit_wf(h),
    {
        let d = ray.dir.dot(&outward_normal);
        if d.raw > 0 {
            proof {
                lemma_neg_preserves_length(outward_normal);
            }
            let flipped = outward_normal.neg();
            Hit::new(location, flipped, t, material, Surface::Inside)
        } else {
            Hit::new(location, outward_normal, t, material, Surface::Outside)
        }
    }
}

} // verus!
