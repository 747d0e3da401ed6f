//! The scene aggregate: an ordered collection of spheres whose closest
//! acceptable hit (by `|t|`) wins regardless of insertion order.

use vstd::prelude::*;
use crate::fixed::abs_i;
use crate::ray::Ray;
use crate::hittable::{Hit, Hittable, hit_wf};
use crate::sphere::{Sphere, Validator, sphere_wf, sphere_hit_spec};

verus! {

/// Every sphere of the scene is well formed.
pub open spec fn world_wf(spheres: Seq<Sphere>) -> bool {
    forall|i: int| 0 <= i < spheres.len() ==> sphere_wf(#[trigger] spheres[i])
}

/// Keep the incumbent unless the challenger hit lies strictly closer in
/// `|t|`.
pub open spec fn closer_hit(acc: Option<Hit>, challenger: Option<Hit>) -> Option<Hit> {
    match challenger {
        Some(h) => match acc {
            Some(c) => if abs_i(c.t.raw as int) > abs_i(h.t.raw as int) {
                Some(h)
            } else {
                Some(c)
            },
            None => Some(h),
        },
        None => acc,
    }
}

/// Fold of `closer_hit` over the scene, in insertion order.
pub open spec fn list_hit_spec(spheres: Seq<Sphere>, ray: Ray, v: Validator) -> Option<Hit>
    decreases spheres.len(),
{
    if spheres.len() == 0 {
        None
    } else {
        closer_hit(
            list_hit_spec(spheres.drop_last(), ray, v),
            sphere_hit_spec(spheres.last(), ray, v),
        )
    }
}

/// Every hit the aggregate reports is well formed and its distance
/// accepted: it only ever relays hits of its members.
pub proof fn lemma_list_hit_wf(spheres: Seq<Sphere>, ray: Ray, v: Validator)
    requires
        world_wf(spheres),
    ensures
        match list_hit_spec(spheres, ray, v) {
            Some(h) => hit_wf(h) && v.accepts_spec(h.t),
            None => true,
        },
    decreases spheres.len(),
{
    if spheres.len() > 0 {
        assert(world_wf(spheres.drop_last()));
        lemma_list_hit_wf(spheres.drop_last(), ray, v);
        crate::sphere::lemma_sphere_hit_wf(spheres.last(), ray, v);
    }
}

/// The aggregate's answer is the closest-hit winner: when it reports a
/// hit, that hit is one some member reported, and no member reported a
/// hit strictly closer in `|t|`; when it reports none, no member hit.
#[verifier::rlimit(100)]
pub proof fn lemma_list_hit_closest(spheres: Seq<Sphere>, ray: Ray, v: Validator)
    ensures
        match list_hit_spec(spheres, ray, v) {
            Some(h) => {
                &&& exists|i: int|
                    0 <= i < spheres.len() && sphere_hit_spec(#[trigger] spheres[i], ray, v)
                        == Some(h)
                &&& forall|i: int|
                    0 <= i < spheres.len() ==> match sphere_hit_spec(
                        #[trigger] spheres[i],
                        ray,
                        v,
                    ) {
                        Some(hi) => abs_i(h.t.raw as int) <= abs_i(hi.t.raw as int),
                        None => true,
                    }
            },
            None => forall|i: int|
                0 <= i < spheres.len() ==> sphere_hit_spec(#[trigger] spheres[i], ray, v) is None,
        },
    decreases spheres.len(),
{
    if spheres.len() > 0 {
        let rest = spheres.drop_last();
        lemma_list_hit_closest(rest, ray, v);
        assert(forall|i: int| 0 <= i < rest.len() ==> rest[i] == #[trigger] spheres[i]);
        assert(spheres.last() == spheres[spheres.len() - 1]);
        match list_hit_spec(spheres, ray, v) {
            Some(h) => {
                if list_hit_spec(rest, ray, v) == Some(h) {
                    let j = choose|j: int|
                        0 <= j < rest.len() && sphere_hit_spec(#[trigger] rest[j], ray, v) == Some(
                            h,
                        );
                    assert(sphere_hit_spec(spheres[j], ray, v) == Some(h));
                } else {
                    assert(sphere_hit_spec(spheres[spheres.len() - 1], ray, v) == Some(h));
                }
            },
            None => {},
        }
    }
}

pub struct HittableList {
    pub objects: Vec<Sphere>,
}

impl HittableList {
    pub fn new(vec: Vec<Sphere>) -> (r: HittableList)
        ensures
            r.objects@ == vec@,
    {
        HittableList { objects: vec }
    }

    pub fn empty() -> (r: HittableList)
        ensures
            r.objects@.len() == 0,
    {
        HittableList { objects: Vec::new() }
    }

    pub fn add(&mut self, obj: Sphere)
        ensures
            final(self).objects@ == old(self).objects@.push(obj),
    {
        self.objects.push(obj);
    }

    pub fn clear(&mut self)
        ensures
            final(self).objects@.len() == 0,
    {
        self.objects.clear();
    }

}

impl Hittable for HittableList {
    open spec fn hittable_wf(&self) -> bool {
        world_wf(self.objects@)
    }

    open spec fn hit_spec(&self, ray: Ray, validate_t: Validator) -> Option<Hit> {
        list_hit_spec(self.objects@, ray, validate_t)
    }

    /// Evaluate every member and keep the hit with the least `|t|`.
    #[verifier::rlimit(60)]
    fn hit(&self, ray: &Ray, validate_t: &Validator) -> (r: Option<Hit>) {
        let mut closest_hit_opt: Option<Hit> = None;
        let mut i: usize = 0;
        while i < self.objects.len()
            invariant
                0 <= i <= self.objects@.len(),
                world_wf(self.objects@),
                closest_hit_opt == list_hit_spec(self.objects@.take(i as int), *ray, *validate_t),
                match closest_hit_opt {
                    Some(h) => hit_wf(h) && validate_t.accepts_spec(h.t),
                    None => true,
                },
            decreases self.objects@.len() - i,
        {
            let hittable = &self.objects[i];
            let hit_opt = hittable.hit(ray, validate_t);
            match hit_opt {
                Some(hit) => {
                    match &closest_hit_opt {
                        Some(closest_hit) => {
                            let ca = if closest_hit.t.raw < 0 {
                                -closest_hit.t.raw
                            } else {
                                closest_hit.t.raw
                            };
                            let ha = if hit.t.raw < 0 {
                                -hit.t.raw
                            } else {
                                hit.t.raw
                            };
                            if ca > ha {
                                closest_hit_opt = Some(hit);
                            }
                        },
                        None => {
                            closest_hit_opt = Some(hit);
                        },
                    }
                },
                None => {},
            }
            proof {
                let pre = self.objects@.take(i as int);
                let post = self.objects@.take(i as int + 1);
                assert(post.drop_last() =~= pre);
                assert(post.last() == self.objects@[i as int]);
            }
            i = i + 1;
        }
        proof {
            assert(self.objects@.take(self.objects@.len() as int) =~= self.objects@);
        }
        closest_hit_opt
    }
}

} // verus!
