//! Spheres and their closed-form ray intersection, the acceptance
//! predicate for intersection distances, and the monic quadratic solver.

use vstd::prelude::*;
use crate::fixed::{Fx, abs_i, SCALE, FX_SAT, sqrt_floor, lemma_sqrt_floor};
use crate::vec3::{Loc, approx_unit, vec_bounded};
use crate::ray::Ray;
use crate::hittable::{Hit, Hittable, hit_wf, from_ray_spec};
use crate::materials::{Material, material_wf};

verus! {

/// A sphere: center, positive radius, and the material of its surface.
#[derive(Clone, Copy, Debug)]
pub struct Sphere {
    pub center: Loc,
    pub radius: Fx,
    pub material: Material,
}

pub open spec fn sphere_wf(s: Sphere) -> bool {
    &&& material_wf(s.material)
    &&& s.radius.raw > 0
}

impl Sphere {
    pub fn new(center: Loc, radius: Fx, material: Material) -> (s: Sphere)
        requires
            radius.raw > 0,
            material_wf(material),
        ensures
            s == (Sphere { center, radius, material }),
            sphere_wf(s),
    {
        Sphere { center, radius, material }
    }

    /// Checked construction: a non-positive radius is rejected at setup
    /// time, naming the offending parameter.
    pub fn try_new(center: Loc, radius: Fx, material: Material) -> (r: Result<
        Sphere,
        crate::config::ConfigError,
    >)
        requires
            material_wf(material),
        ensures
            radius.raw > 0 ==> r == Result::<Sphere, crate::config::ConfigError>::Ok(
                Sphere { center, radius, material },
            ),
            radius.raw <= 0 ==> r == Result::<Sphere, crate::config::ConfigError>::Err(
                crate::config::ConfigError::SphereRadius,
            ),
            r is Ok ==> sphere_wf(r->Ok_0),
    {
        if radius.raw > 0 {
            Ok(Sphere { center, radius, material })
        } else {
            Err(crate::config::ConfigError::SphereRadius)
        }
    }
}

/// An acceptance predicate on intersection distances: an optional lower
/// and an optional upper bound.
#[derive(Clone, Copy, Debug)]
pub struct Validator {
    pub min: Option<Fx>,
    pub max: Option<Fx>,
}

impl Validator {
    pub open spec fn accepts_spec(self, t: Fx) -> bool {
        let a_ok = match self.min {
            Some(a) => a.raw <= t.raw,
            None => true,
        };
        let b_ok = match self.max {
            Some(b) => b.raw >= t.raw,
            None => true,
        };
        a_ok && b_ok
    }

    /// Whether `t` is an acceptable intersection distance.
    pub fn accepts(&self, t: Fx) -> (b: bool)
        ensures
            b == self.accepts_spec(t),
    {
        let a_ok = match self.min {
            Some(a) => a.raw <= t.raw,
            None => true,
        };
        let b_ok = match self.max {
            Some(b) => b.raw >= t.raw,
            None => true,
        };
        a_ok && b_ok
    }
}

/// The validator that accepts every distance.
pub fn trivial_validator() -> (v: Validator)
    ensures
        v == (Validator { min: None::<Fx>, max: None::<Fx> }),
        forall|t: Fx| v.accepts_spec(t),
{
    Validator { min: None, max: None }
}

/// The validator that accepts `t` with `a <= t <= b`, where either bound
/// may be absent.
pub fn interval_validator(a_opt: Option<Fx>, b_opt: Option<Fx>) -> (v: Validator)
    ensures
        v == (Validator { min: a_opt, max: b_opt }),
{
    Validator { min: a_opt, max: b_opt }
}

/// Roots of the monic quadratic `t^2 + p t + q = 0`, in ascending order,
/// or `None` when `(p/2)^2 < q` leaves no real root.
pub open spec fn solve_pq_spec(p: Fx, q: Fx) -> Option<(Fx, Fx)> {
    let two = Fx { raw: 131072 };
    let p_half_sq = p.div_spec(two).times_spec(p.div_spec(two));
    if p_half_sq.raw < q.raw {
        None
    } else {
        let root = p_half_sq.minus_spec(q).sqrt_spec();
        let m_half = p.neg_spec().div_spec(two);
        Some((m_half.minus_spec(root), m_half.plus_spec(root)))
    }
}

/// The square root's raw value is nonnegative and small enough that later
/// sums cannot wrap.
pub proof fn lemma_sqrt_spec_range(x: Fx)
    ensures
        0 <= x.sqrt_spec().raw <= 0x200_0000_0001,
{
    if x.raw > 0 {
        let n = x.raw * SCALE;
        lemma_sqrt_floor(n);
        let f = sqrt_floor(n);
        assert(f <= 0x200_0000_0000) by (nonlinear_arith)
            requires
                0 <= f,
                f * f <= n,
                n < 0x8000_0000_0000_0000_0000,
        ;
    }
}

pub fn solve_pq(p: Fx, q: Fx) -> (r: Option<(Fx, Fx)>)
    ensures
        r == solve_pq_spec(p, q),
        match r {
            Some((x1, x2)) => x1.raw <= x2.raw && abs_i(x1.raw as int) <= FX_SAT as int && abs_i(
                x2.raw as int,
            ) <= FX_SAT as int,
            None => true,
        },
{
    let two = Fx { raw: 131072 };
    let p_half = p.divide(two);
    let p_half_sq = p_half.times(p_half);
    if p_half_sq.raw < q.raw {
        return None;
    }
    let root = p_half_sq.minus(q).sqrt();
    proof {
        lemma_sqrt_spec_range(p_half_sq.minus_spec(q));
    }
    let m_half = p.neg().divide(two);
    Some((m_half.minus(root), m_half.plus(root)))
}

/// The fixed-point evaluation of the monic quadratic `x^2 + p x + q`.
pub open spec fn quad_eval_spec(p: Fx, q: Fx, x: Fx) -> Fx {
    x.times_spec(x).plus_spec(p.times_spec(x)).plus_spec(q)
}

/// The quadratic law on whole-valued inputs: when `p` and `q` stand for
/// moderate integers `pp` and `qq` whose discriminant `pp^2 - 4 qq` is a
/// perfect square `dd^2`, the solver returns exactly the two real roots
/// in ascending order, and evaluating the quadratic at either root gives
/// exactly zero.  (With `(p/2)^2 < q` the solver returns `None`, which is
/// part of `solve_pq`'s contract directly.)
pub proof fn lemma_solve_pq_integer_roots(p: Fx, q: Fx, pp: int, qq: int, dd: int)
    requires
        p.raw as int == pp * 65536,
        q.raw as int == qq * 65536,
        -1024 <= pp <= 1024,
        -1048576 <= qq <= 1048576,
        dd >= 0,
        dd * dd == pp * pp - 4 * qq,
    ensures
        solve_pq_spec(p, q) is Some,
        ({
            let (x1, x2) = solve_pq_spec(p, q)->Some_0;
            &&& x1.raw <= x2.raw
            &&& x1.raw as int == -32768 * (pp + dd)
            &&& x2.raw as int == 32768 * (dd - pp)
            &&& quad_eval_spec(p, q, x1).raw == 0
            &&& quad_eval_spec(p, q, x2).raw == 0
        }),
{
    assert(0 <= dd * dd <= 1024 * 1024 + 4 * 1048576 && dd <= 2290 && pp * pp <= 1048576)
        by (nonlinear_arith)
        requires
            dd >= 0,
            dd * dd == pp * pp - 4 * qq,
            -1024 <= pp <= 1024,
            -1048576 <= qq <= 1048576,
    ;
    let two = Fx { raw: 131072 };
    // p / 2 is exact: pp * 32768.
    let p_half = p.div_spec(two);
    assert(p.raw as int * 65536 == (pp * 32768) * 131072);
    crate::fixed::lemma_rdiv_exact(pp * 32768, 131072);
    assert(p_half.raw as int == pp * 32768);
    // (p/2)^2 is exact: pp^2 * 16384.
    let p_half_sq = p_half.times_spec(p_half);
    assert((pp * 32768) * (pp * 32768) == (16384 * (pp * pp)) * 65536) by (nonlinear_arith);
    crate::fixed::lemma_rdiv_exact(16384 * (pp * pp), 65536);
    assert(p_half_sq.raw as int == 16384 * (pp * pp));
    // The discriminant test: pp^2 >= 4 qq, so a root exists.
    assert(!(p_half_sq.raw < q.raw));
    assert(solve_pq_spec(p, q) is Some);
    // (p/2)^2 - q = 16384 dd^2, whose square root is exactly 32768 dd.
    let diff = p_half_sq.minus_spec(q);
    assert(16384 * (pp * pp) - qq * 65536 == 16384 * (dd * dd)) by (nonlinear_arith)
        requires
            dd * dd == pp * pp - 4 * qq,
    ;
    assert(0 <= 16384 * (dd * dd) <= 16384 * 5244100) by (nonlinear_arith)
        requires
            0 <= dd <= 2290,
    ;
    assert(diff.raw as int == 16384 * (dd * dd));
    let root = diff.sqrt_spec();
    if dd == 0 {
        assert(root.raw as int == 32768 * dd);
    } else {
        assert(diff.raw > 0) by (nonlinear_arith)
            requires
                diff.raw as int == 16384 * (dd * dd),
                dd > 0,
        ;
        assert(diff.raw as int * 65536 == (32768 * dd) * (32768 * dd)) by (nonlinear_arith)
            requires
                diff.raw as int == 16384 * (dd * dd),
        ;
        crate::fixed::lemma_sqrt_round_perfect(32768 * dd);
        assert(root.raw as int == 32768 * dd);
    }
    // -p / 2 is exact: -pp * 32768.
    let m_half = p.neg_spec().div_spec(two);
    assert(p.neg_spec().raw as int == -(pp * 65536));
    assert((-(pp * 65536)) * 65536 == (-32768 * pp) * 131072);
    crate::fixed::lemma_rdiv_exact(-32768 * pp, 131072);
    assert(m_half.raw as int == -32768 * pp);
    // Both roots are exact.
    let (x1, x2) = solve_pq_spec(p, q)->Some_0;
    assert(x1 == m_half.minus_spec(root) && x2 == m_half.plus_spec(root));
    assert(x1.raw as int == -32768 * (pp + dd));
    assert(x2.raw as int == 32768 * (dd - pp));
    // Evaluate the quadratic at x1.
    assert((-32768 * (pp + dd)) * (-32768 * (pp + dd)) == (16384 * ((pp + dd) * (pp + dd)))
        * 65536) by (nonlinear_arith);
    crate::fixed::lemma_rdiv_exact(16384 * ((pp + dd) * (pp + dd)), 65536);
    assert((pp + dd) * (pp + dd) <= 10982596 && 0 <= (pp + dd) * (pp + dd)) by (nonlinear_arith)
        requires
            -1024 <= pp <= 1024,
            0 <= dd <= 2290,
    ;
    assert(x1.times_spec(x1).raw as int == 16384 * ((pp + dd) * (pp + dd)));
    assert((pp * 65536) * (-32768 * (pp + dd)) == (-32768 * (pp * (pp + dd))) * 65536)
        by (nonlinear_arith);
    crate::fixed::lemma_rdiv_exact(-32768 * (pp * (pp + dd)), 65536);
    assert(-3393536 <= pp * (pp + dd) <= 3393536) by (nonlinear_arith)
        requires
            -1024 <= pp <= 1024,
            0 <= (pp + dd) * (pp + dd) <= 10982596,
    ;
    assert(p.times_spec(x1).raw as int == -32768 * (pp * (pp + dd)));
    assert(16384 * ((pp + dd) * (pp + dd)) + (-32768 * (pp * (pp + dd))) == 16384 * (dd * dd - pp
        * pp)) by (nonlinear_arith);
    assert(16384 * (dd * dd - pp * pp) == -(qq * 65536)) by (nonlinear_arith)
        requires
            dd * dd == pp * pp - 4 * qq,
    ;
    assert(x1.times_spec(x1).plus_spec(p.times_spec(x1)).raw as int == -(qq * 65536));
    assert(quad_eval_spec(p, q, x1).raw == 0);
    // Evaluate the quadratic at x2.
    assert((32768 * (dd - pp)) * (32768 * (dd - pp)) == (16384 * ((dd - pp) * (dd - pp)))
        * 65536) by (nonlinear_arith);
    crate::fixed::lemma_rdiv_exact(16384 * ((dd - pp) * (dd - pp)), 65536);
    assert((dd - pp) * (dd - pp) <= 10982596 && 0 <= (dd - pp) * (dd - pp)) by (nonlinear_arith)
        requires
            -1024 <= pp <= 1024,
            0 <= dd <= 2290,
    ;
    assert(x2.times_spec(x2).raw as int == 16384 * ((dd - pp) * (dd - pp)));
    assert((pp * 65536) * (32768 * (dd - pp)) == (32768 * (pp * (dd - pp))) * 65536)
        by (nonlinear_arith);
    crate::fixed::lemma_rdiv_exact(32768 * (pp * (dd - pp)), 65536);
    assert(-3393536 <= pp * (dd - pp) <= 3393536) by (nonlinear_arith)
        requires
            -1024 <= pp <= 1024,
            0 <= (dd - pp) * (dd - pp) <= 10982596,
    ;
    assert(p.times_spec(x2).raw as int == 32768 * (pp * (dd - pp)));
    assert(16384 * ((dd - pp) * (dd - pp)) + 32768 * (pp * (dd - pp)) == 16384 * (dd * dd - pp
        * pp)) by (nonlinear_arith);
    assert(x2.times_spec(x2).plus_spec(p.times_spec(x2)).raw as int == -(qq * 65536));
    assert(quad_eval_spec(p, q, x2).raw == 0);
}

/// The first element of `vec` that the predicate accepts, walking left to
/// right, or `None` when it accepts none.
pub fn first_acceptable<T: Copy, F: Fn(T) -> bool>(vec: Vec<T>, validate: &F) -> (r: Option<T>)
    requires
        forall|i: int| 0 <= i < vec@.len() ==> call_requires(*validate, (vec@[i],)),
    ensures
        match r {
            Some(v) => exists|i: int|
                0 <= i < vec@.len() && vec@[i] == v && call_ensures(*validate, (v,), true) && (
                forall|j: int| 0 <= j < i ==> call_ensures(*validate, (#[trigger] vec@[j],), false)),
            None => forall|i: int|
                0 <= i < vec@.len() ==> call_ensures(*validate, (#[trigger] vec@[i],), false),
        },
{
    let mut idx: usize = 0;
    while idx < vec.len()
        invariant
            0 <= idx <= vec@.len(),
            forall|i: int| 0 <= i < vec@.len() ==> call_requires(*validate, (vec@[i],)),
            forall|j: int| 0 <= j < idx ==> call_ensures(*validate, (#[trigger] vec@[j],), false),
        decreases vec@.len() - idx,
    {
        let el = vec[idx];
        if validate(el) {
            proof {
                let w = idx as int;
                assert(0 <= w < vec@.len() && vec@[w] == el && call_ensures(
                    *validate,
                    (el,),
                    true,
                ));
            }
            return Some(el);
        }
        idx = idx + 1;
    }
    None
}

/// The full intersection rule: substitute the ray into the sphere
/// equation, normalize to a monic quadratic, take the first root the
/// validator accepts, and build the outward-corrected hit record.  A
/// normal whose computed length leaves the unit tolerance (a numeric
/// degeneracy) is reported as no intersection.  (Opaque: proofs about the
/// aggregate treat a member's answer as a value.)
#[verifier::opaque]
pub open spec fn sphere_hit_spec(s: Sphere, ray: Ray, v: Validator) -> Option<Hit> {
    let a_c = ray.orig.minus_spec(s.center);
    let bb = ray.dir.dot_spec(ray.dir);
    let p = Fx { raw: 131072 }.times_spec(ray.dir.dot_spec(a_c)).div_spec(bb);
    let q = a_c.dot_spec(a_c).minus_spec(s.radius.times_spec(s.radius)).div_spec(bb);
    match solve_pq_spec(p, q) {
        None => None,
        Some((t1, t2)) => {
            let t_opt = if v.accepts_spec(t1) {
                Some(t1)
            } else if v.accepts_spec(t2) {
                Some(t2)
            } else {
                None
            };
            match t_opt {
                None => None,
                Some(t) => {
                    let hit_location = ray.at_spec(t);
                    let outward_normal = hit_location.minus_spec(s.center).unit_vector_spec();
                    if approx_unit(outward_normal) {
                        Some(from_ray_spec(hit_location, outward_normal, t, ray, s.material))
                    } else {
                        None
                    }
                },
            }
        },
    }
}

/// Every hit a sphere reports is well formed — its normal unit length
/// within tolerance — and its distance accepted by the validator.
#[verifier::rlimit(60)]
pub proof fn lemma_sphere_hit_wf(s: Sphere, ray: Ray, v: Validator)
    requires
        sphere_wf(s),
    ensures
        match sphere_hit_spec(s, ray, v) {
            Some(h) => hit_wf(h) && v.accepts_spec(h.t) && h.material == s.material,
            None => true,
        },
{
    reveal(sphere_hit_spec);
    let a_c = ray.orig.minus_spec(s.center);
    let bb = ray.dir.dot_spec(ray.dir);
    let p = Fx { raw: 131072 }.times_spec(ray.dir.dot_spec(a_c)).div_spec(bb);
    let q = a_c.dot_spec(a_c).minus_spec(s.radius.times_spec(s.radius)).div_spec(bb);
    match solve_pq_spec(p, q) {
        None => {},
        Some((t1, t2)) => {
            let t_opt = if v.accepts_spec(t1) {
                Some(t1)
            } else if v.accepts_spec(t2) {
                Some(t2)
            } else {
                None::<Fx>
            };
            match t_opt {
                None => {},
                Some(t) => {
                    let hit_location = ray.at_spec(t);
                    let outward_normal = hit_location.minus_spec(s.center).unit_vector_spec();
                    assert(vec_bounded(outward_normal));
                    assert(abs_i(t.raw as int) <= FX_SAT as int);
                    if approx_unit(outward_normal) {
                        crate::vec3::lemma_neg_preserves_length(outward_normal);
                    }
                },
            }
        },
    }
}

impl Hittable for Sphere {
    open spec fn hittable_wf(&self) -> bool {
        sphere_wf(*self)
    }

    open spec fn hit_spec(&self, ray: Ray, validate_t: Validator) -> Option<Hit> {
        sphere_hit_spec(*self, ray, validate_t)
    }

    /// The closest acceptable intersection of `ray` with this sphere, or
    /// `None`.
    #[verifier::rlimit(60)]
    fn hit(&self, ray: &Ray, validate_t: &Validator) -> (r: Option<Hit>) {
        proof {
            reveal(sphere_hit_spec);
        }
        let a_vec = ray.orig;
        let b_vec = ray.dir;
        let a_c = a_vec.minus(&self.center);
        let bb = b_vec.dot(&b_vec);
        let p = Fx { raw: 131072 }.times(b_vec.dot(&a_c)).divide(bb);
        let q = a_c.dot(&a_c).minus(self.radius.times(self.radius)).divide(bb);
        let roots = match solve_pq(p, q) {
            Some(r) => r,
            None => {
                return None;
            },
        };
        let (t1, t2) = roots;
        let accept = |t: Fx| -> (b: bool)
            ensures
                b == validate_t.accepts_spec(t),
            { validate_t.accepts(t) };
        let t = match first_acceptable(vec![t1, t2], &accept) {
            Some(t) => t,
            None => {
                proof {
                    assert(!validate_t.accepts_spec(t1) && !validate_t.accepts_spec(t2));
                }
                return None;
            },
        };
        proof {
            assert(t == t1 || t == t2);
            assert(t == if validate_t.accepts_spec(t1) {
                t1
            } else {
                t2
            });
            assert(validate_t.accepts_spec(t));
        }
        let hit_location = ray.at(t);
        let outward_normal = hit_location.minus(&self.center).unit_vector();
        if outward_normal.is_approx_unit() {
            proof {
                assert(vec_bounded(outward_normal));
            }
            Some(Hit::from_ray(hit_location, outward_normal, t, ray, self.material))
        } else {
            None
        }
    }
}

} // verus!

