//! The record produced by a successful ray-primitive intersection.

use vstd::prelude::*;
use crate::fixed::SCALE;
use crate::material::Material;
use crate::scatter::ScatteringType;
use crate::my_vec3::MyVec3;

verus! {

#[derive(Clone, Copy, PartialEq, Eq, Structural, Debug)]
pub struct RayInfo {
    pub intersect: MyVec3,
    /// Unit-length surface normal, oriented to oppose the incoming ray.
    pub normal: MyVec3,
    /// Distance along the ray, in fixed-point units.
    pub ds: i64,
    pub is_front: bool,
    pub material: Material,
}

impl RayInfo {
    /// The record returned alongside a miss: everything zeroed, with a plain
    /// diffuse material and an upward normal.
    pub open spec fn empty_spec() -> RayInfo {
        RayInfo {
            intersect: MyVec3 { x: 0, y: 0, z: 0 },
            normal: MyVec3 { x: 0, y: SCALE, z: 0 },
            ds: 0,
            is_front: false,
            material: Material {
                surface: ScatteringType::DiffuseScattering,
                gain: MyVec3 { x: 0, y: 0, z: 0 },
                metal_fuzz: None,
                index_of_refraction: None,
            },
        }
    }

    pub fn empty() -> (r: RayInfo)
        ensures
            r == RayInfo::empty_spec(),
    {
        RayInfo {
            intersect: MyVec3 { x: 0, y: 0, z: 0 },
            normal: MyVec3 { x: 0, y: SCALE, z: 0 },
            ds: 0,
            is_front: false,
            material: Material {
                surface: ScatteringType::DiffuseScattering,
                gain: MyVec3 { x: 0, y: 0, z: 0 },
                metal_fuzz: None,
                index_of_refraction: None,
            },
        }
    }
}

/// The empty record's normal is the upward unit axis, well clear of zero.
pub proof fn lemma_empty_normal_large()
    ensures
        RayInfo::empty_spec().normal.dot_raw(RayInfo::empty_spec().normal) >= 0x4000_0000,
{
    let n = RayInfo::empty_spec().normal;
    assert(n.dot_raw(n) >= 0x4000_0000) by (nonlinear_arith)
        requires n.x == 0 && n.y == 65536 && n.z == 0;
}

impl Default for RayInfo {
    fn default() -> (r: RayInfo)
        ensures
            r == RayInfo::empty_spec(),
    {
        RayInfo::empty()
    }
}

} // verus!
