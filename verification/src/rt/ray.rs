//! A ray: an origin and a direction.

use vstd::prelude::*;
use crate::fx::{mag, SCALE};
use crate::vec3::{add3_s, fits3, lemma_scale3_bound, scale3_s, Vec3, V3i, COMP_MAX};

verus! {

/// A ray in world space.  The direction need not be normalized.
#[derive(Clone, Copy, Debug)]
pub struct Ray {
    pub origin: Vec3,
    pub direction: Vec3,
}

/// The point reached after travelling the fixed-point distance `t` along the
/// ray: `origin + t * direction`.
pub open spec fn at_s(origin: V3i, direction: V3i, t: int) -> V3i {
    add3_s(origin, scale3_s(direction, t))
}

impl Ray {
    /// Builds a ray from an origin and a direction.
    pub fn new(origin: Vec3, direction: Vec3) -> (r: Ray)
        ensures
            r.origin == origin,
            r.direction == direction,
    {
        Ray { origin, direction }
    }

    /// The point reached after travelling the fixed-point distance `t`.
    pub fn at(&self, t: i128) -> (r: Vec3)
        requires
            fits3(self.origin.m()),
            fits3(self.direction.m()),
            mag(t as int) <= COMP_MAX as int,
            mag(self.direction.m().x) * mag(t as int) <= (COMP_MAX as int) * (SCALE as int),
            mag(self.direction.m().y) * mag(t as int) <= (COMP_MAX as int) * (SCALE as int),
            mag(self.direction.m().z) * mag(t as int) <= (COMP_MAX as int) * (SCALE as int),
        ensures
            r.m() == at_s(self.origin.m(), self.direction.m(), t as int),
    {
        let scaled: Vec3 = self.direction.scale(t);
        proof {
            lemma_scale3_bound(self.direction.m(), t as int, COMP_MAX as int);
        }
        self.origin.add(&scaled)
    }
}

} // verus!
