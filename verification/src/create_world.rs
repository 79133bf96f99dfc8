//! The demonstration scene: a large ground sphere, a grid of small randomly
//! materialed spheres, and three large feature spheres (glass, diffuse, and a
//! moving mirror). Coordinates are fixed-point; the thresholds are the
//! nearest fixed-point values of the conventional scene constants.

use vstd::prelude::*;
use crate::common::{RandomSource, random_in_interval, uniform_random};
use crate::fixed::SCALE;
use crate::material::Material;
use crate::my_vec3::{MyVec3, random_in_interval_vec3, random_vec3};
use crate::scatter::ScatteringType;
use crate::world_element::{Primitive, WorldElement};
use crate::world_sphere::{WEMovingSphere, WESphere};

verus! {

/// The neutral grey ground material.
pub open spec fn spec_ground_material() -> Material {
    Material {
        surface: ScatteringType::DiffuseScattering,
        gain: MyVec3 { x: 32768, y: 32768, z: 32768 },
        metal_fuzz: None,
        index_of_refraction: None,
    }
}

/// The clear glass material (index 1.5, unit gain).
pub open spec fn spec_glass_material() -> Material {
    Material {
        surface: ScatteringType::RefractiveScattering,
        gain: MyVec3 { x: SCALE, y: SCALE, z: SCALE },
        metal_fuzz: None,
        index_of_refraction: Some(98304int as i64),
    }
}

/// Build the demonstration world; every primitive added satisfies the scene
/// bounds, so the result is well-formed. The fixed landmarks are pinned: the
/// ground sphere comes first, and the last three objects are the large glass
/// sphere, the large diffuse sphere, and the moving metallic sphere; in
/// between lie at most 529 small grid spheres.
pub fn create_world(rng: &mut RandomSource) -> (w: WorldElement)
    ensures
        w.wf(),
        4 <= w.objects@.len() <= 533,
        w.objects@[0] == Primitive::Sphere(
            WESphere {
                c: MyVec3 { x: 0, y: (-65536000) as i64, z: 0 },
                r: 65536000,
                material: spec_ground_material(),
            },
        ),
        w.objects@[w.objects@.len() - 3] == Primitive::Sphere(
            WESphere {
                c: MyVec3 { x: 0, y: SCALE, z: 0 },
                r: SCALE,
                material: spec_glass_material(),
            },
        ),
        w.objects@[w.objects@.len() - 2] == Primitive::Sphere(
            WESphere {
                c: MyVec3 { x: (-4 * SCALE) as i64, y: SCALE, z: 0 },
                r: SCALE,
                material: Material {
                    surface: ScatteringType::DiffuseScattering,
                    gain: MyVec3 { x: 26214, y: 13107, z: 6554 },
                    metal_fuzz: None,
                    index_of_refraction: None,
                },
            },
        ),
        w.objects@[w.objects@.len() - 1] == Primitive::Moving(
            WEMovingSphere {
                sphere_zero: WESphere {
                    c: MyVec3 { x: (4 * SCALE) as i64, y: SCALE, z: 0 },
                    r: SCALE,
                    material: Material {
                        surface: ScatteringType::MetallicScattering,
                        gain: MyVec3 { x: 45875, y: 39322, z: 32768 },
                        metal_fuzz: Some(0int as i64),
                        index_of_refraction: None,
                    },
                },
                speed: 16384,
                direction: MyVec3::unit_of(MyVec3 { x: SCALE, y: 0, z: 0 }),
            },
        ),
{
    let mut world_element = WorldElement { objects: Vec::new() };
    let grey = Material {
        surface: ScatteringType::DiffuseScattering,
        gain: MyVec3 { x: 32768, y: 32768, z: 32768 },
        metal_fuzz: None,
        index_of_refraction: None,
    };
    world_element.add_sphere(0, -65536000, 0, 65536000, grey);
    let glass = Material {
        surface: ScatteringType::RefractiveScattering,
        gain: MyVec3 { x: SCALE, y: SCALE, z: SCALE },
        metal_fuzz: None,
        index_of_refraction: Some(98304),
    };
    // Small spheres, scattered about the ground.
    let mut m: i64 = -11;
    while m <= 11
        invariant
            glass == spec_glass_material(),
            glass.wf(),
            world_element.wf(),
            world_element.objects@.len() >= 1,
            world_element.objects@.len() <= 1 + (m + 11) * 23,
            world_element.objects@[0] == Primitive::Sphere(
                WESphere {
                    c: MyVec3 { x: 0, y: (-65536000) as i64, z: 0 },
                    r: 65536000,
                    material: spec_ground_material(),
                },
            ),
            -11 <= m <= 12,
        decreases 12 - m,
    {
        let mut n: i64 = -11;
        while n <= 11
            invariant
                glass == spec_glass_material(),
                glass.wf(),
                world_element.wf(),
                world_element.objects@.len() >= 1,
                world_element.objects@.len() <= 1 + (m + 11) * 23 + (n + 11),
                world_element.objects@[0] == Primitive::Sphere(
                    WESphere {
                        c: MyVec3 { x: 0, y: (-65536000) as i64, z: 0 },
                        r: 65536000,
                        material: spec_ground_material(),
                    },
                ),
                -11 <= m <= 11,
                -11 <= n <= 12,
            decreases 12 - n,
        {
            let material_chooser: i64 = uniform_random(rng);
            let sx: i64 = m * SCALE + random_in_interval(0, 58982, rng);
            let sy: i64 = 13107;
            let sz: i64 = n * SCALE + random_in_interval(0, 58982, rng);
            // Keep clear of the large sphere at (4, 0.2, 0): the offset's
            // squared length must exceed (0.9)^2.
            let ox: i64 = sx - 4 * SCALE;
            let oz: i64 = sz;
            proof {
                crate::fixed::lemma_prod_bound(ox as int, ox as int, 0x100_0000);
                crate::fixed::lemma_prod_bound(oz as int, oz as int, 0x100_0000);
            }
            if ox * ox + oz * oz > 3478923509 {
                if material_chooser < 52429 {
                    let g: MyVec3 = random_vec3(rng);
                    let h: MyVec3 = random_vec3(rng);
                    let gain: MyVec3 = g.mul(h);
                    proof {
                        crate::fixed::lemma_prod_bound(g.x as int, h.x as int, SCALE as int);
                        crate::fixed::lemma_prod_bound(g.y as int, h.y as int, SCALE as int);
                        crate::fixed::lemma_prod_bound(g.z as int, h.z as int, SCALE as int);
                        crate::fixed::lemma_div_const_range(g.x * h.x, SCALE as int, SCALE as int);
                        crate::fixed::lemma_div_const_range(g.y * h.y, SCALE as int, SCALE as int);
                        crate::fixed::lemma_div_const_range(g.z * h.z, SCALE as int, SCALE as int);
                        assert(g.x * h.x >= 0 && g.y * h.y >= 0 && g.z * h.z >= 0)
                            by (nonlinear_arith)
                            requires g.x >= 0 && g.y >= 0 && g.z >= 0 && h.x >= 0 && h.y >= 0
                                && h.z >= 0;
                        crate::fixed::lemma_div_range(g.x * h.x, SCALE as int);
                        crate::fixed::lemma_div_range(g.y * h.y, SCALE as int);
                        crate::fixed::lemma_div_range(g.z * h.z, SCALE as int);
                    }
                    let diffuse = Material {
                        surface: ScatteringType::DiffuseScattering,
                        gain,
                        metal_fuzz: None,
                        index_of_refraction: None,
                    };
                    world_element.add_sphere(sx, sy, sz, 13107, diffuse);
                } else if material_chooser < 62259 {
                    let gain: MyVec3 = random_in_interval_vec3(32768, SCALE, rng);
                    let fuzz: i64 = random_in_interval(0, 32768, rng);
                    let metallic = Material {
                        surface: ScatteringType::MetallicScattering,
                        gain,
                        metal_fuzz: Some(fuzz),
                        index_of_refraction: None,
                    };
                    world_element.add_sphere(sx, sy, sz, 13107, metallic);
                } else {
                    world_element.add_sphere(sx, sy, sz, 13107, glass);
                }
            }
            n = n + 1;
        }
        m = m + 1;
        proof {
            assert((m - 1 + 11) * 23 + 23 == (m + 11) * 23) by (nonlinear_arith);
        }
    }
    proof {
        assert(world_element.objects@.len() <= 530) by (nonlinear_arith)
            requires world_element.objects@.len() <= 1 + (11 + 11 + 1) * 23;
    }
    // Large feature spheres.
    let diffuse_large = Material {
        surface: ScatteringType::DiffuseScattering,
        gain: MyVec3 { x: 26214, y: 13107, z: 6554 },
        metal_fuzz: None,
        index_of_refraction: None,
    };
    let metallic_large = Material {
        surface: ScatteringType::MetallicScattering,
        gain: MyVec3 { x: 45875, y: 39322, z: 32768 },
        metal_fuzz: Some(0),
        index_of_refraction: None,
    };
    world_element.add_sphere(0, SCALE, 0, SCALE, glass);
    world_element.add_sphere(-4 * SCALE, SCALE, 0, SCALE, diffuse_large);
    world_element.add_moving_sphere(
        4 * SCALE,
        SCALE,
        0,
        SCALE,
        metallic_large,
        16384,
        MyVec3 { x: SCALE, y: 0, z: 0 },
    );
    world_element
}

} // verus!
