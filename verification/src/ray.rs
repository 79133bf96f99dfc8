//! A ray: origin, direction and the time at which it was cast.

use vstd::prelude::*;
use crate::fixed::{SCALE, lemma_div_range, lemma_prod_bound};
use crate::my_vec3::{COORD_LIMIT, MyVec3};

verus! {

#[derive(Clone, Copy, PartialEq, Eq, Structural, Debug)]
pub struct Ray {
    pub p: MyVec3,
    pub direction: MyVec3,
    /// Time at which the ray was cast; resolves moving primitives.
    pub cast_time: i64,
}

impl Ray {
    /// The point reached after travelling `ds` fixed-point units along the
    /// direction: `p + ds * direction`.
    pub fn at(&self, ds: i64) -> (r: MyVec3)
        requires
            self.p.bounded(COORD_LIMIT as int),
            self.direction.bounded(COORD_LIMIT as int),
            -(COORD_LIMIT as int) <= ds <= COORD_LIMIT as int,
        ensures
            r.x == self.p.x + ds * self.direction.x / (SCALE as int),
            r.y == self.p.y + ds * self.direction.y / (SCALE as int),
            r.z == self.p.z + ds * self.direction.z / (SCALE as int),
    {
        proof {
            lemma_prod_bound(ds as int, self.direction.x as int, COORD_LIMIT as int);
            lemma_prod_bound(ds as int, self.direction.y as int, COORD_LIMIT as int);
            lemma_prod_bound(ds as int, self.direction.z as int, COORD_LIMIT as int);
            lemma_div_range(ds * self.direction.x, SCALE as int);
            lemma_div_range(ds * self.direction.y, SCALE as int);
            lemma_div_range(ds * self.direction.z, SCALE as int);
        }
        let step: MyVec3 = self.direction.scale(ds);
        self.p.add(step)
    }
}

} // verus!
