//! Randomness context and rejection samplers.
//!
//! Every sampling function takes an explicit `RandomSource` so that the
//! scattering code stays free of hidden global state. Values are uniform
//! fixed-point fractions; the samplers promise only what holds of every
//! outcome (ranges, and that rejection-sampled points lie strictly inside
//! the unit region).

use vstd::prelude::*;
use rand::RngCore;
use rand::SeedableRng;
use crate::fixed::SCALE;
use crate::my_vec3::MyVec3;

verus! {

#[verifier::external_type_specification]
#[verifier::external_body]
pub struct ExStdRng(rand::rngs::StdRng);

/// A worker-private pseudo-random stream.
pub struct RandomSource {
    rng: rand::rngs::StdRng,
}

impl RandomSource {
    pub fn new(rng: rand::rngs::StdRng) -> (r: RandomSource) {
        RandomSource { rng }
    }

    /// Relies on rand's `RngCore::next_u64` for `StdRng`; nothing is promised
    /// of the value drawn.
    #[verifier::external_body]
    fn next_u64(&mut self) -> u64 {
        self.rng.next_u64()
    }
}

/// Relies on rand's `SeedableRng::seed_from_u64` for `StdRng`: a worker
/// stream deterministically derived from a seed.
#[verifier::external_body]
pub(crate) fn source_from_seed(seed: u64) -> (r: RandomSource) {
    RandomSource { rng: rand::rngs::StdRng::seed_from_u64(seed) }
}

/// A uniform fixed-point fraction in `[0, 1)`.
pub fn uniform_random(rng: &mut RandomSource) -> (r: i64)
    ensures
        0 <= r < SCALE,
{
    let v: u64 = rng.next_u64();
    (v % 65536) as i64
}

/// A uniform fixed-point value in `[min, max]`.
pub fn random_in_interval(min: i64, max: i64, rng: &mut RandomSource) -> (r: i64)
    requires
        -(crate::my_vec3::COORD_LIMIT as int) <= min <= max <= crate::my_vec3::COORD_LIMIT as int,
    ensures
        min <= r <= max,
{
    let u: i64 = uniform_random(rng);
    proof {
        crate::fixed::lemma_prod_bound2(
            (max - min) as int,
            u as int,
            2 * crate::my_vec3::COORD_LIMIT as int,
            SCALE as int,
        );
        assert(0 <= (max - min) * (u as int) <= (max - min) * (SCALE as int))
            by (nonlinear_arith)
            requires 0 <= u <= SCALE && max - min >= 0;
        crate::fixed::lemma_div_const_range((max - min) * (u as int), (max - min) as int,
            SCALE as int);
        crate::fixed::lemma_div_range((max - min) * (u as int), SCALE as int);
    }
    let step: i64 = crate::fixed::fmul(max - min, u);
    min + step
}

/// A uniform point strictly inside the unit circle of the xy plane, by
/// rejection from the square; after the attempt budget the fallback is a
/// fixed interior point.
pub fn uniform_within_unit_circle(rng: &mut RandomSource) -> (p: MyVec3)
    ensures
        p.dot_raw(p) < (SCALE as int) * (SCALE as int),
        p.z == 0,
        p.bounded(SCALE as int),
{
    let mut attempts: u32 = 0;
    while attempts < 64
        invariant
            attempts <= 64,
        decreases 64 - attempts,
    {
        let x: i64 = 2 * uniform_random(rng) - SCALE;
        let y: i64 = 2 * uniform_random(rng) - SCALE;
        proof {
            crate::fixed::lemma_prod_bound(x as int, x as int, SCALE as int);
            crate::fixed::lemma_prod_bound(y as int, y as int, SCALE as int);
        }
        if x * x + y * y < SCALE * SCALE {
            return MyVec3 { x, y, z: 0 };
        }
        attempts = attempts + 1;
    }
    proof {
        assert(32768 * 32768 + 0 * 0 + 0 * 0 < 65536 * 65536) by (nonlinear_arith);
    }
    MyVec3 { x: SCALE / 2, y: 0, z: 0 }
}

/// A uniform point strictly inside the unit sphere, by rejection from the
/// cube; after the attempt budget the fallback is a fixed interior point.
pub fn random_point_in_unit_sphere(rng: &mut RandomSource) -> (p: MyVec3)
    ensures
        p.dot_raw(p) < (SCALE as int) * (SCALE as int),
        p.bounded(SCALE as int),
{
    let mut attempts: u32 = 0;
    while attempts < 64
        invariant
            attempts <= 64,
        decreases 64 - attempts,
    {
        let x: i64 = 2 * uniform_random(rng) - SCALE;
        let y: i64 = 2 * uniform_random(rng) - SCALE;
        let z: i64 = 2 * uniform_random(rng) - SCALE;
        proof {
            crate::fixed::lemma_prod_bound(x as int, x as int, SCALE as int);
            crate::fixed::lemma_prod_bound(y as int, y as int, SCALE as int);
            crate::fixed::lemma_prod_bound(z as int, z as int, SCALE as int);
        }
        if x * x + y * y + z * z < SCALE * SCALE {
            return MyVec3 { x, y, z };
        }
        attempts = attempts + 1;
    }
    proof {
        assert(32768 * 32768 + 0 * 0 + 0 * 0 < 65536 * 65536) by (nonlinear_arith);
    }
    MyVec3 { x: SCALE / 2, y: 0, z: 0 }
}

} // verus!
