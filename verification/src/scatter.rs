//! The light-scattering model: per-surface-kind rules mapping an incoming ray
//! and a hit normal to an outgoing direction.
//!
//! Each rule is split into a pure direction function, pinned to an exact
//! fixed-point formula over the inputs and the random sample it consumed, and
//! a sampling entry point that draws the sample and dispatches.

use vstd::prelude::*;
use crate::common::{RandomSource, random_point_in_unit_sphere, uniform_random};
use crate::fixed::{
    SCALE, fdiv, fmul, fsqrt, lemma_div_const_range, lemma_div_range, lemma_prod_bound,
    lemma_prod_bound2, lemma_scaled_bound, sqrt_spec,
};
use crate::my_vec3::{MyVec3, vec3_normalize};
use crate::ray::Ray;
use crate::rayinfo::RayInfo;
use crate::world_sphere::DIR_LIMIT;

verus! {

#[derive(Clone, Copy, PartialEq, Eq, Structural, Debug)]
pub enum ScatteringType {
    DiffuseScattering,
    MetallicScattering,
    RefractiveScattering,
}

/// Largest component magnitude a scattered direction can reach.
pub const SCATTER_LIMIT: i64 = 0x80_0000;

/// Mirror reflection about the normal: `d - 2 (d . n) n`.
pub open spec fn spec_reflect(d: MyVec3, n: MyVec3) -> MyVec3 {
    let t = d.dot_raw(n) / (SCALE as int);
    MyVec3 {
        x: (d.x - 2 * (t * n.x / (SCALE as int))) as i64,
        y: (d.y - 2 * (t * n.y / (SCALE as int))) as i64,
        z: (d.z - 2 * (t * n.z / (SCALE as int))) as i64,
    }
}

/// Reflect `d` about the unit normal `n`.
pub fn reflect(d: MyVec3, n: MyVec3) -> (r: MyVec3)
    requires
        d.bounded(DIR_LIMIT as int),
        n.bounded(SCALE as int),
    ensures
        r == spec_reflect(d, n),
        r.bounded(7 * DIR_LIMIT as int),
{
    let t: i64 = d.dot(n);
    proof {
        lemma_prod_bound2(d.x as int, n.x as int, DIR_LIMIT as int, SCALE as int);
        lemma_prod_bound2(d.y as int, n.y as int, DIR_LIMIT as int, SCALE as int);
        lemma_prod_bound2(d.z as int, n.z as int, DIR_LIMIT as int, SCALE as int);
        lemma_div_const_range(d.dot_raw(n), 3 * DIR_LIMIT as int, SCALE as int);
        lemma_scaled_bound(t as int, n.x as int, 3 * DIR_LIMIT as int);
        lemma_scaled_bound(t as int, n.y as int, 3 * DIR_LIMIT as int);
        lemma_scaled_bound(t as int, n.z as int, 3 * DIR_LIMIT as int);
    }
    let proj: MyVec3 = n.scale(t);
    MyVec3 {
        x: d.x - proj.x - proj.x,
        y: d.y - proj.y - proj.y,
        z: d.z - proj.z - proj.z,
    }
}

/// Diffuse rule: add a unit-length random offset to the normal; a
/// degenerate sample or a near-cancelled sum falls back to the normal.
pub open spec fn spec_diffuse(n: MyVec3, sample: MyVec3) -> MyVec3 {
    let unit = if sample.dot_raw(sample) >= 1 {
        MyVec3::unit_of(sample)
    } else {
        n
    };
    let d = MyVec3 { x: (n.x + unit.x) as i64, y: (n.y + unit.y) as i64, z: (n.z + unit.z) as i64 };
    if d.dot_raw(d) < SCALE {
        n
    } else {
        d
    }
}

/// The diffuse direction for a given sample point.
pub fn diffuse_direction(normal: MyVec3, sample: MyVec3) -> (r: MyVec3)
    requires
        normal.bounded(SCALE as int),
        normal.dot_raw(normal) >= 0x4000_0000,
        sample.bounded(SCALE as int),
    ensures
        r == spec_diffuse(normal, sample),
        r.bounded(2 * SCALE as int),
        r.dot_raw(r) >= SCALE,
{
    proof {
        lemma_prod_bound(sample.x as int, sample.x as int, SCALE as int);
        lemma_prod_bound(sample.y as int, sample.y as int, SCALE as int);
        lemma_prod_bound(sample.z as int, sample.z as int, SCALE as int);
    }
    let raw: i128 = (sample.x as i128) * (sample.x as i128) + (sample.y as i128) * (
    sample.y as i128) + (sample.z as i128) * (sample.z as i128);
    let unit: MyVec3 = if raw >= 1 {
        vec3_normalize(sample)
    } else {
        normal
    };
    let d = MyVec3 { x: normal.x + unit.x, y: normal.y + unit.y, z: normal.z + unit.z };
    proof {
        lemma_prod_bound(d.x as int, d.x as int, 2 * SCALE as int);
        lemma_prod_bound(d.y as int, d.y as int, 2 * SCALE as int);
        lemma_prod_bound(d.z as int, d.z as int, 2 * SCALE as int);
    }
    let draw: i128 = (d.x as i128) * (d.x as i128) + (d.y as i128) * (d.y as i128) + (
    d.z as i128) * (d.z as i128);
    if draw < SCALE as i128 {
        normal
    } else {
        d
    }
}

pub fn diffuse_scatter(_ray: Ray, normal: MyVec3, rng: &mut RandomSource) -> (r: MyVec3)
    requires
        normal.bounded(SCALE as int),
        normal.dot_raw(normal) >= 0x4000_0000,
    ensures
        exists|s: MyVec3|
            s.bounded(SCALE as int) && s.dot_raw(s) < (SCALE as int) * (SCALE as int) && r
                == #[trigger] spec_diffuse(normal, s),
        r.bounded(2 * SCALE as int),
        r.dot_raw(r) >= SCALE,
{
    let sample: MyVec3 = random_point_in_unit_sphere(rng);
    let r: MyVec3 = diffuse_direction(normal, sample);
    proof {
        assert(sample.bounded(SCALE as int) && sample.dot_raw(sample) < (SCALE as int) * (
        SCALE as int) && r == spec_diffuse(normal, sample));
    }
    r
}

/// Metallic rule: reflect, normalize, perturb by `fuzz` times a point of the
/// unit sphere; a result pointing into the surface falls back to the normal.
pub open spec fn spec_metallic(d: MyVec3, n: MyVec3, fuzz: int, sample: MyVec3) -> MyVec3 {
    let refl = spec_reflect(d, n);
    let unit = if refl.dot_raw(refl) >= 1 {
        MyVec3::unit_of(refl)
    } else {
        n
    };
    let fuzzed = MyVec3 {
        x: (unit.x + fuzz * sample.x / (SCALE as int)) as i64,
        y: (unit.y + fuzz * sample.y / (SCALE as int)) as i64,
        z: (unit.z + fuzz * sample.z / (SCALE as int)) as i64,
    };
    if n.dot_raw(fuzzed) > 0 {
        fuzzed
    } else {
        n
    }
}

/// The metallic direction for a given sample point.
pub fn metallic_direction(d: MyVec3, normal: MyVec3, fuzz_extent: i64, sample: MyVec3) -> (r:
    MyVec3)
    requires
        d.bounded(DIR_LIMIT as int),
        normal.bounded(SCALE as int),
        normal.dot_raw(normal) >= 0x4000_0000,
        0 <= fuzz_extent <= SCALE,
        sample.bounded(SCALE as int),
    ensures
        r == spec_metallic(d, normal, fuzz_extent as int, sample),
        r.bounded(2 * SCALE as int),
        r.dot_raw(r) >= 1,
        r == normal || normal.dot_raw(r) > 0,
{
    let refl: MyVec3 = reflect(d, normal);
    proof {
        lemma_prod_bound(refl.x as int, refl.x as int, 7 * DIR_LIMIT as int);
        lemma_prod_bound(refl.y as int, refl.y as int, 7 * DIR_LIMIT as int);
        lemma_prod_bound(refl.z as int, refl.z as int, 7 * DIR_LIMIT as int);
    }
    let rraw: i128 = (refl.x as i128) * (refl.x as i128) + (refl.y as i128) * (refl.y as i128) + (
    refl.z as i128) * (refl.z as i128);
    let unit: MyVec3 = if rraw >= 1 {
        vec3_normalize(refl)
    } else {
        normal
    };
    proof {
        lemma_scaled_bound(fuzz_extent as int, sample.x as int, SCALE as int);
        lemma_scaled_bound(fuzz_extent as int, sample.y as int, SCALE as int);
        lemma_scaled_bound(fuzz_extent as int, sample.z as int, SCALE as int);
    }
    let fuzz_vector: MyVec3 = sample.scale(fuzz_extent);
    let fuzzed = MyVec3 {
        x: unit.x + fuzz_vector.x,
        y: unit.y + fuzz_vector.y,
        z: unit.z + fuzz_vector.z,
    };
    proof {
        lemma_prod_bound2(normal.x as int, fuzzed.x as int, SCALE as int, 2 * SCALE as int);
        lemma_prod_bound2(normal.y as int, fuzzed.y as int, SCALE as int, 2 * SCALE as int);
        lemma_prod_bound2(normal.z as int, fuzzed.z as int, SCALE as int, 2 * SCALE as int);
    }
    let s0: i128 = (normal.x as i128) * (fuzzed.x as i128) + (normal.y as i128) * (
    fuzzed.y as i128) + (normal.z as i128) * (fuzzed.z as i128);
    if s0 > 0 {
        proof {
            assert(s0 == normal.dot_raw(fuzzed));
            assert(!(fuzzed.x == 0 && fuzzed.y == 0 && fuzzed.z == 0)) by (nonlinear_arith)
                requires
                    normal.dot_raw(fuzzed) > 0 && normal.dot_raw(fuzzed) == normal.x * fuzzed.x
                        + normal.y * fuzzed.y + normal.z * fuzzed.z;
            assert(fuzzed.dot_raw(fuzzed) >= 1) by (nonlinear_arith)
                requires
                    !(fuzzed.x == 0 && fuzzed.y == 0 && fuzzed.z == 0) && fuzzed.dot_raw(fuzzed)
                        == fuzzed.x * fuzzed.x + fuzzed.y * fuzzed.y + fuzzed.z * fuzzed.z;
        }
        fuzzed
    } else {
        normal
    }
}

pub fn metallic_scatter(ray: Ray, normal: MyVec3, fuzz_extent: i64, rng: &mut RandomSource) -> (r:
    MyVec3)
    requires
        ray.direction.bounded(DIR_LIMIT as int),
        normal.bounded(SCALE as int),
        normal.dot_raw(normal) >= 0x4000_0000,
        0 <= fuzz_extent <= SCALE,
    ensures
        exists|s: MyVec3|
            s.bounded(SCALE as int) && s.dot_raw(s) < (SCALE as int) * (SCALE as int) && r
                == #[trigger] spec_metallic(ray.direction, normal, fuzz_extent as int, s),
        r.bounded(2 * SCALE as int),
        r.dot_raw(r) >= 1,
        r == normal || normal.dot_raw(r) > 0,
{
    let sample: MyVec3 = random_point_in_unit_sphere(rng);
    let r: MyVec3 = metallic_direction(ray.direction, normal, fuzz_extent, sample);
    proof {
        assert(sample.bounded(SCALE as int) && sample.dot_raw(sample) < (SCALE as int) * (
        SCALE as int) && r == spec_metallic(ray.direction, normal, fuzz_extent as int, sample));
    }
    r
}

/// Schlick's closed-form reflectance estimate.
pub open spec fn spec_schlick(cos: int, idx: int) -> int {
    let r0 = (SCALE - idx) * SCALE / (SCALE + idx);
    let r0sq = r0 * r0 / (SCALE as int);
    let u = SCALE - cos;
    let p2 = u * u / (SCALE as int);
    let p4 = p2 * p2 / (SCALE as int);
    let p5 = p4 * u / (SCALE as int);
    r0sq + (SCALE - r0sq) * p5 / (SCALE as int)
}

/// Schlick reflectance `r0 + (1 - r0) (1 - cos)^5` with
/// `r0 = ((1 - idx) / (1 + idx))^2`.
pub fn schlick_reflectance(cos: i64, idx: i64) -> (r: i64)
    requires
        -SCALE <= cos <= SCALE,
        0 <= idx <= 16 * SCALE,
    ensures
        r == spec_schlick(cos as int, idx as int),
{
    proof {
        lemma_prod_bound2((SCALE - idx) as int, SCALE as int, 16 * SCALE as int, SCALE as int);
        lemma_div_range((SCALE - idx) * (SCALE as int), (SCALE + idx) as int);
    }
    let r0: i64 = fdiv(SCALE - idx, SCALE + idx);
    proof {
        assert((SCALE - idx) * (SCALE as int) <= (SCALE as int) * (SCALE + idx) && -((
        SCALE as int) * (SCALE + idx)) <= (SCALE - idx) * (SCALE as int)) by (nonlinear_arith)
            requires 0 <= idx <= 16 * SCALE && SCALE == 65536;
        vstd::arithmetic::div_mod::lemma_div_is_ordered(
            (SCALE - idx) * (SCALE as int),
            (SCALE as int) * (SCALE + idx),
            (SCALE + idx) as int,
        );
        vstd::arithmetic::div_mod::lemma_div_is_ordered(
            -((SCALE as int) * (SCALE + idx)),
            (SCALE - idx) * (SCALE as int),
            (SCALE + idx) as int,
        );
        assert((SCALE as int) * (SCALE + idx) == (SCALE + idx) * (SCALE as int) && -((
        SCALE as int) * (SCALE + idx)) == (SCALE + idx) * (-(SCALE as int))) by (nonlinear_arith);
        vstd::arithmetic::div_mod::lemma_div_multiples_vanish(SCALE as int, (SCALE + idx) as int);
        vstd::arithmetic::div_mod::lemma_div_multiples_vanish(
            -(SCALE as int),
            (SCALE + idx) as int,
        );
        lemma_prod_bound(r0 as int, r0 as int, SCALE as int);
        lemma_div_const_range(r0 * r0, SCALE as int, SCALE as int);
    }
    let r0sq: i64 = fmul(r0, r0);
    let u: i64 = SCALE - cos;
    proof {
        lemma_prod_bound(u as int, u as int, 2 * SCALE as int);
        lemma_div_const_range(u * u, 4 * SCALE as int, SCALE as int);
    }
    let p2: i64 = fmul(u, u);
    proof {
        lemma_prod_bound(p2 as int, p2 as int, 4 * SCALE as int);
        lemma_div_const_range(p2 * p2, 16 * SCALE as int, SCALE as int);
    }
    let p4: i64 = fmul(p2, p2);
    proof {
        lemma_prod_bound2(p4 as int, u as int, 16 * SCALE as int, 2 * SCALE as int);
        lemma_div_const_range(p4 * u, 32 * SCALE as int, SCALE as int);
    }
    let p5: i64 = fmul(p4, u);
    proof {
        lemma_prod_bound2((SCALE - r0sq) as int, p5 as int, 2 * SCALE as int, 32 * SCALE as int);
        lemma_div_const_range((SCALE - r0sq) * (p5 as int), 64 * SCALE as int, SCALE as int);
    }
    let tail: i64 = fmul(SCALE - r0sq, p5);
    r0sq + tail
}

/// At normal incidence the angular term vanishes and the reflectance is
/// exactly `r0 = ((1 - idx) / (1 + idx))^2`.
pub proof fn lemma_schlick_normal_incidence(idx: int)
    requires
        0 <= idx,
    ensures
        spec_schlick(SCALE as int, idx) == ({
            let r0 = (SCALE - idx) * SCALE / (SCALE + idx);
            r0 * r0 / (SCALE as int)
        }),
{
    let r0 = (SCALE - idx) * (SCALE as int) / (SCALE + idx);
    let r0sq = r0 * r0 / (SCALE as int);
    assert(0int * 0int / (SCALE as int) == 0int);
    assert((SCALE - r0sq) * 0 / (SCALE as int) == 0) by (nonlinear_arith);
}

/// Refracted direction by the vector form of Snell's law:
/// `c2 = eta (d_unit + cos n)`, `c1 = -sqrt(|1 - |c2|^2|) n`, result
/// `c1 + c2`.
pub open spec fn spec_refract_dir(du: MyVec3, n: MyVec3, eta: int, cos: int) -> MyVec3 {
    let t1 = MyVec3 {
        x: (du.x + cos * n.x / (SCALE as int)) as i64,
        y: (du.y + cos * n.y / (SCALE as int)) as i64,
        z: (du.z + cos * n.z / (SCALE as int)) as i64,
    };
    let c2 = MyVec3 {
        x: (eta * t1.x / (SCALE as int)) as i64,
        y: (eta * t1.y / (SCALE as int)) as i64,
        z: (eta * t1.z / (SCALE as int)) as i64,
    };
    let k = SCALE - c2.dot_raw(c2) / (SCALE as int);
    let ka = if k >= 0 {
        k
    } else {
        -k
    };
    let f = sqrt_spec(ka * (SCALE as int));
    MyVec3 {
        x: (c2.x + (-f) * n.x / (SCALE as int)) as i64,
        y: (c2.y + (-f) * n.y / (SCALE as int)) as i64,
        z: (c2.z + (-f) * n.z / (SCALE as int)) as i64,
    }
}

/// Refractive rule: below `reflectivity` always reflect; otherwise reflect on
/// total internal reflection or when the Schlick reflectance beats the second
/// draw, else refract. The incidence cosine is clamped to `[-1, 1]`.
pub open spec fn spec_refractive(
    d: MyVec3,
    n: MyVec3,
    is_front: bool,
    reflectivity: int,
    idx: int,
    x1: int,
    x2: int,
) -> MyVec3 {
    if x1 < reflectivity {
        spec_reflect(d, n)
    } else {
        let eta = if is_front {
            (SCALE as int) * (SCALE as int) / idx
        } else {
            idx
        };
        let du = MyVec3::unit_of(d);
        let c0 = -(du.dot_raw(n) / (SCALE as int));
        let cos = if c0 > SCALE {
            SCALE as int
        } else if c0 < -SCALE {
            -(SCALE as int)
        } else {
            c0
        };
        let s2 = SCALE - cos * cos / (SCALE as int);
        let s2c = if s2 >= 0 {
            s2
        } else {
            0
        };
        let sin = sqrt_spec(s2c * (SCALE as int));
        if eta * sin / (SCALE as int) > SCALE || spec_schlick(cos, eta) > x2 {
            spec_reflect(d, n)
        } else {
            spec_refract_dir(du, n, eta, cos)
        }
    }
}

/// The refractive direction for two given uniform draws.
pub fn refractive_direction(
    d: MyVec3,
    normal: MyVec3,
    is_front: bool,
    reflectivity: i64,
    refractive_index: i64,
    x1: i64,
    x2: i64,
) -> (r: MyVec3)
    requires
        d.bounded(DIR_LIMIT as int),
        d.dot_raw(d) >= 1,
        normal.bounded(SCALE as int),
        0 <= reflectivity <= SCALE,
        SCALE / 4 <= refractive_index <= 4 * SCALE,
        0 <= x1 < SCALE,
        0 <= x2 < SCALE,
    ensures
        r == spec_refractive(
            d,
            normal,
            is_front,
            reflectivity as int,
            refractive_index as int,
            x1 as int,
            x2 as int,
        ),
        r.bounded(SCATTER_LIMIT as int),
{
    if x1 < reflectivity {
        let r: MyVec3 = reflect(d, normal);
        return r;
    }
    let eta: i64 = if is_front {
        fdiv(SCALE, refractive_index)
    } else {
        refractive_index
    };
    proof {
        lemma_div_const_range(
            (SCALE as int) * (SCALE as int),
            4 * SCALE as int,
            refractive_index as int,
        );
        vstd::arithmetic::div_mod::lemma_div_pos_is_pos(
            (SCALE as int) * (SCALE as int),
            refractive_index as int,
        );
    }
    let du: MyVec3 = vec3_normalize(d);
    let t0: i64 = du.dot(normal);
    proof {
        lemma_prod_bound(du.x as int, normal.x as int, SCALE as int);
        lemma_prod_bound(du.y as int, normal.y as int, SCALE as int);
        lemma_prod_bound(du.z as int, normal.z as int, SCALE as int);
        lemma_div_const_range(du.dot_raw(normal), 3 * SCALE as int, SCALE as int);
    }
    let c0: i64 = -t0;
    let cos: i64 = if c0 > SCALE {
        SCALE
    } else if c0 < -SCALE {
        -SCALE
    } else {
        c0
    };
    proof {
        lemma_prod_bound(cos as int, cos as int, SCALE as int);
        lemma_div_const_range(cos * cos, SCALE as int, SCALE as int);
    }
    let s2: i64 = SCALE - fmul(cos, cos);
    let s2c: i64 = if s2 >= 0 {
        s2
    } else {
        0
    };
    let sin: i64 = fsqrt(s2c);
    proof {
        assert(sin <= 2 * SCALE) by (nonlinear_arith)
            requires
                sin >= 0 && (sin as int) * (sin as int) <= (s2c as int) * (SCALE as int) && 0
                    <= s2c <= 2 * SCALE && SCALE == 65536;
        lemma_prod_bound2(eta as int, sin as int, 4 * SCALE as int, 2 * SCALE as int);
        lemma_div_const_range(eta * (sin as int), 8 * SCALE as int, SCALE as int);
    }
    let tir: i64 = fmul(eta, sin);
    let refl_prob: i64 = schlick_reflectance(cos, eta);
    if tir > SCALE || refl_prob > x2 {
        let r: MyVec3 = reflect(d, normal);
        return r;
    }
    refract_dir(du, normal, eta, cos)
}

/// Executable counterpart of `spec_refract_dir`.
fn refract_dir(du: MyVec3, n: MyVec3, eta: i64, cos: i64) -> (r: MyVec3)
    requires
        du.bounded(SCALE as int),
        n.bounded(SCALE as int),
        0 <= eta <= 4 * SCALE,
        -SCALE <= cos <= SCALE,
    ensures
        r == spec_refract_dir(du, n, eta as int, cos as int),
        r.bounded(SCATTER_LIMIT as int),
{
    proof {
        lemma_scaled_bound(cos as int, n.x as int, SCALE as int);
        lemma_scaled_bound(cos as int, n.y as int, SCALE as int);
        lemma_scaled_bound(cos as int, n.z as int, SCALE as int);
    }
    let step: MyVec3 = n.scale(cos);
    let t1 = MyVec3 { x: du.x + step.x, y: du.y + step.y, z: du.z + step.z };
    proof {
        lemma_prod_bound2(eta as int, t1.x as int, 4 * SCALE as int, 2 * SCALE as int);
        lemma_prod_bound2(eta as int, t1.y as int, 4 * SCALE as int, 2 * SCALE as int);
        lemma_prod_bound2(eta as int, t1.z as int, 4 * SCALE as int, 2 * SCALE as int);
        lemma_div_const_range(eta * (t1.x as int), 8 * SCALE as int, SCALE as int);
        lemma_div_const_range(eta * (t1.y as int), 8 * SCALE as int, SCALE as int);
        lemma_div_const_range(eta * (t1.z as int), 8 * SCALE as int, SCALE as int);
    }
    let c2: MyVec3 = t1.scale(eta);
    proof {
        lemma_prod_bound(c2.x as int, c2.x as int, 8 * SCALE as int);
        lemma_prod_bound(c2.y as int, c2.y as int, 8 * SCALE as int);
        lemma_prod_bound(c2.z as int, c2.z as int, 8 * SCALE as int);
        assert(c2.dot_raw(c2) >= 0) by (nonlinear_arith);
        lemma_div_const_range(c2.dot_raw(c2), 192 * SCALE as int, SCALE as int);
        lemma_div_range(c2.dot_raw(c2), SCALE as int);
    }
    let sq: i64 = c2.squared_length();
    let k: i64 = SCALE - sq;
    let ka: i64 = if k >= 0 {
        k
    } else {
        -k
    };
    let f: i64 = fsqrt(ka);
    proof {
        assert(f <= 64 * SCALE) by (nonlinear_arith)
            requires
                f >= 0 && (f as int) * (f as int) <= (ka as int) * (SCALE as int) && 0 <= ka <= 192
                    * SCALE && SCALE == 65536;
        lemma_scaled_bound((-f) as int, n.x as int, 64 * SCALE as int);
        lemma_scaled_bound((-f) as int, n.y as int, 64 * SCALE as int);
        lemma_scaled_bound((-f) as int, n.z as int, 64 * SCALE as int);
    }
    let c1: MyVec3 = n.scale(-f);
    MyVec3 { x: c2.x + c1.x, y: c2.y + c1.y, z: c2.z + c1.z }
}

pub fn refractive_scatter(
    ray: Ray,
    normal: MyVec3,
    is_front: bool,
    reflectivity: i64,
    refractive_index: i64,
    rng: &mut RandomSource,
) -> (r: MyVec3)
    requires
        ray.direction.bounded(DIR_LIMIT as int),
        ray.direction.dot_raw(ray.direction) >= 1,
        normal.bounded(SCALE as int),
        0 <= reflectivity <= SCALE,
        SCALE / 4 <= refractive_index <= 4 * SCALE,
    ensures
        exists|x1: int, x2: int|
            0 <= x1 < SCALE && 0 <= x2 < SCALE && r == #[trigger] spec_refractive(
                ray.direction,
                normal,
                is_front,
                reflectivity as int,
                refractive_index as int,
                x1,
                x2,
            ),
        r.bounded(SCATTER_LIMIT as int),
{
    let x1: i64 = uniform_random(rng);
    let x2: i64 = uniform_random(rng);
    let r: MyVec3 = refractive_direction(
        ray.direction,
        normal,
        is_front,
        reflectivity,
        refractive_index,
        x1,
        x2,
    );
    proof {
        assert(0 <= x1 < SCALE && 0 <= x2 < SCALE && r == spec_refractive(
            ray.direction,
            normal,
            is_front,
            reflectivity as int,
            refractive_index as int,
            x1 as int,
            x2 as int,
        ));
    }
    r
}

/// Dispatch on the hit's surface kind; the fixed surface reflectivity of the
/// refractive rule is zero, so its behavior is entirely angle-dependent.
pub fn scatter(r: Ray, ray_info: &RayInfo, rng: &mut RandomSource) -> (out: MyVec3)
    requires
        r.direction.bounded(DIR_LIMIT as int),
        r.direction.dot_raw(r.direction) >= 1,
        ray_info.normal.bounded(SCALE as int),
        ray_info.normal.dot_raw(ray_info.normal) >= 0x4000_0000,
        ray_info.material.wf(),
    ensures
        out.bounded(SCATTER_LIMIT as int),
        ray_info.material.surface is DiffuseScattering ==> out.dot_raw(out) >= SCALE,
        ray_info.material.surface is MetallicScattering ==> out.dot_raw(out) >= 1 && (out
            == ray_info.normal || ray_info.normal.dot_raw(out) > 0),
        ray_info.material.surface is DiffuseScattering ==> exists|s: MyVec3|
            s.bounded(SCALE as int) && s.dot_raw(s) < (SCALE as int) * (SCALE as int) && out
                == #[trigger] spec_diffuse(ray_info.normal, s),
        ray_info.material.surface is MetallicScattering ==> exists|s: MyVec3|
            s.bounded(SCALE as int) && s.dot_raw(s) < (SCALE as int) * (SCALE as int) && out
                == #[trigger] spec_metallic(
                r.direction,
                ray_info.normal,
                ray_info.material.fuzz_of(),
                s,
            ),
        ray_info.material.surface is RefractiveScattering ==> exists|x1: int, x2: int|
            0 <= x1 < SCALE && 0 <= x2 < SCALE && out == #[trigger] spec_refractive(
                r.direction,
                ray_info.normal,
                ray_info.is_front,
                0,
                ray_info.material.index_of(),
                x1,
                x2,
            ),
{
    match ray_info.material.surface {
        ScatteringType::DiffuseScattering => diffuse_scatter(r, ray_info.normal, rng),
        ScatteringType::MetallicScattering => {
            let fuzz: i64 = match ray_info.material.metal_fuzz {
                Some(f) => f,
                None => 0,
            };
            let out: MyVec3 = metallic_scatter(r, ray_info.normal, fuzz, rng);
            proof {
                let fz = ray_info.material.fuzz_of();
                let s0 = choose|s: MyVec3|
                    s.bounded(SCALE as int) && s.dot_raw(s) < (SCALE as int) * (SCALE as int)
                        && out == #[trigger] spec_metallic(
                        r.direction,
                        ray_info.normal,
                        fuzz as int,
                        s,
                    );
                assert(s0.bounded(SCALE as int) && s0.dot_raw(s0) < (SCALE as int) * (
                SCALE as int) && out == spec_metallic(r.direction, ray_info.normal, fz, s0));
            }
            out
        },
        ScatteringType::RefractiveScattering => {
            let idx: i64 = match ray_info.material.index_of_refraction {
                Some(n) => n,
                None => SCALE,
            };
            let out: MyVec3 = refractive_scatter(r, ray_info.normal, ray_info.is_front, 0, idx,
                rng);
            proof {
                let ix = ray_info.material.index_of();
                let (y1, y2) = choose|x1: int, x2: int|
                    0 <= x1 < SCALE && 0 <= x2 < SCALE && out == #[trigger] spec_refractive(
                        r.direction,
                        ray_info.normal,
                        ray_info.is_front,
                        0,
                        idx as int,
                        x1,
                        x2,
                    );
                assert(0 <= y1 < SCALE && 0 <= y2 < SCALE && out == spec_refractive(
                    r.direction,
                    ray_info.normal,
                    ray_info.is_front,
                    0,
                    ix,
                    y1,
                    y2,
                ));
            }
            out
        },
    }
}

} // verus!
