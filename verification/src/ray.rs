//! A ray: origin plus direction, with the point it reaches at parameter `t`.

use vstd::prelude::*;
use crate::fixed::Fx;
use crate::vec3::{Vec3, Loc};

verus! {

#[derive(Clone, Copy, Debug)]
pub struct Ray {
    pub orig: Loc,
    pub dir: Loc,
}

impl Ray {
    pub open spec fn at_spec(self, t: Fx) -> Loc {
        self.orig.plus_spec(self.dir.scale_spec(t))
    }

    pub open spec fn unit_direction_spec(self) -> Loc {
        self.dir.unit_vector_spec()
    }

    pub fn new(orig: Loc, dir: Loc) -> (r: Ray)
        ensures
            r == (Ray { orig, dir }),
    {
        Ray { orig, dir }
    }

    /// The point the ray reaches at parameter `t`.
    pub fn at(&self, t: Fx) -> (r: Loc)
        ensures
            r == self.at_spec(t),
    {
        let d = self.dir.scale(t);
        self.orig.plus(&d)
    }

    /// The ray's direction, normalized.
    pub fn unit_direction(&self) -> (r: Loc)
        ensures
            r == self.unit_direction_spec(),
    {
        self.dir.unit_vector()
    }
}

} // verus!
