//! Surface materials: the scattering kind and its parameters.

use vstd::prelude::*;
use crate::fixed::SCALE;
use crate::my_vec3::MyVec3;
use crate::scatter::ScatteringType;

verus! {

/// A surface response: which scattering rule applies, the per-channel gain
/// multiplied into the path throughput at every bounce, and the parameters
/// that are only meaningful for the metallic and refractive kinds.
#[derive(Clone, Copy, PartialEq, Eq, Structural, Debug)]
pub struct Material {
    pub surface: ScatteringType,
    pub gain: MyVec3,
    pub metal_fuzz: Option<i64>,
    pub index_of_refraction: Option<i64>,
}

impl Material {
    /// The fuzz extent used by the metallic rule: the stored value, or zero.
    pub open spec fn fuzz_of(self) -> int {
        match self.metal_fuzz {
            Some(f) => f as int,
            None => 0int,
        }
    }

    /// The refractive index used by the refractive rule: the stored value,
    /// or one.
    pub open spec fn index_of(self) -> int {
        match self.index_of_refraction {
            Some(n) => n as int,
            None => SCALE as int,
        }
    }

    /// Gain channels are multiplicative light filters in `[0, 1]`; a fuzz
    /// extent lies in `[0, 1]`; a refractive index lies in `[1/4, 4]`.
    pub open spec fn wf(self) -> bool {
        &&& 0 <= self.gain.x <= SCALE
        &&& 0 <= self.gain.y <= SCALE
        &&& 0 <= self.gain.z <= SCALE
        &&& match self.metal_fuzz {
            Some(f) => 0 <= f <= SCALE,
            None => true,
        }
        &&& match self.index_of_refraction {
            Some(n) => SCALE / 4 <= n <= 4 * SCALE,
            None => true,
        }
    }
}

} // verus!
