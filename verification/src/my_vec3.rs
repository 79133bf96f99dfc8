//! Three-component fixed-point vectors: points, directions and colors.
//!
//! Every operation is pinned to an exact integer formula over the stored
//! components; products and quotients carry the `SCALE` factor of the
//! fixed-point encoding and round toward negative infinity.

use vstd::prelude::*;
use vstd::arithmetic::div_mod::{lemma_div_is_ordered, lemma_div_multiples_vanish};
use crate::fixed::{SCALE, div_floor, fdiv, fsqrt, lemma_div_range, lemma_prod_bound, sqrt_spec};

verus! {

/// Largest component magnitude the vector operations accept; keeps every
/// intermediate product inside `i128` and every result inside `i64`.
pub const COORD_LIMIT: i64 = 0x40_0000_0000;

/// Wider bound accepted by normalization alone; keeps the raw inner product
/// inside the integer square root's domain.
pub const NORM_LIMIT: i64 = 0x1000_0000_0000_0000;

#[derive(Clone, Copy, PartialEq, Eq, Structural, Debug)]
pub struct MyVec3 {
    pub x: i64,
    pub y: i64,
    pub z: i64,
}

impl MyVec3 {
    /// All components lie within `[-b, b]`.
    pub open spec fn bounded(self, b: int) -> bool {
        &&& -b <= self.x <= b
        &&& -b <= self.y <= b
        &&& -b <= self.z <= b
    }

    /// Raw inner product of the stored components; carries scale `SCALE^2`.
    pub open spec fn dot_raw(self, rhs: MyVec3) -> int {
        self.x * rhs.x + self.y * rhs.y + self.z * rhs.z
    }

    /// Squared length in fixed-point units: `dot_raw / SCALE`.
    pub open spec fn sq_units(self) -> int {
        self.dot_raw(self) / (SCALE as int)
    }

    pub fn add(self, rhs: MyVec3) -> (r: MyVec3)
        requires
            i64::MIN <= self.x + rhs.x <= i64::MAX,
            i64::MIN <= self.y + rhs.y <= i64::MAX,
            i64::MIN <= self.z + rhs.z <= i64::MAX,
        ensures
            r.x == self.x + rhs.x,
            r.y == self.y + rhs.y,
            r.z == self.z + rhs.z,
    {
        MyVec3 { x: self.x + rhs.x, y: self.y + rhs.y, z: self.z + rhs.z }
    }

    pub fn sub(self, rhs: MyVec3) -> (r: MyVec3)
        requires
            i64::MIN <= self.x - rhs.x <= i64::MAX,
            i64::MIN <= self.y - rhs.y <= i64::MAX,
            i64::MIN <= self.z - rhs.z <= i64::MAX,
        ensures
            r.x == self.x - rhs.x,
            r.y == self.y - rhs.y,
            r.z == self.z - rhs.z,
    {
        MyVec3 { x: self.x - rhs.x, y: self.y - rhs.y, z: self.z - rhs.z }
    }

    pub fn neg(self) -> (r: MyVec3)
        requires
            self.x != i64::MIN,
            self.y != i64::MIN,
            self.z != i64::MIN,
        ensures
            r.x == -self.x,
            r.y == -self.y,
            r.z == -self.z,
    {
        MyVec3 { x: -self.x, y: -self.y, z: -self.z }
    }

    /// Component-wise fixed-point product, used for color filtering.
    pub fn mul(self, rhs: MyVec3) -> (r: MyVec3)
        requires
            self.bounded(COORD_LIMIT as int),
            rhs.bounded(COORD_LIMIT as int),
        ensures
            r.x == self.x * rhs.x / (SCALE as int),
            r.y == self.y * rhs.y / (SCALE as int),
            r.z == self.z * rhs.z / (SCALE as int),
    {
        MyVec3 {
            x: fixed_prod(self.x, rhs.x),
            y: fixed_prod(self.y, rhs.y),
            z: fixed_prod(self.z, rhs.z),
        }
    }

    /// Fixed-point scalar multiple `k * v`.
    pub fn scale(self, k: i64) -> (r: MyVec3)
        requires
            self.bounded(COORD_LIMIT as int),
            -(COORD_LIMIT as int) <= k <= COORD_LIMIT as int,
        ensures
            r.x == k * self.x / (SCALE as int),
            r.y == k * self.y / (SCALE as int),
            r.z == k * self.z / (SCALE as int),
    {
        MyVec3 {
            x: fixed_prod(k, self.x),
            y: fixed_prod(k, self.y),
            z: fixed_prod(k, self.z),
        }
    }

    /// Fixed-point division by a positive scalar.
    pub fn div(self, k: i64) -> (r: MyVec3)
        requires
            self.bounded(COORD_LIMIT as int),
            0 < k,
        ensures
            r.x == self.x * SCALE / (k as int),
            r.y == self.y * SCALE / (k as int),
            r.z == self.z * SCALE / (k as int),
    {
        proof {
            lemma_prod_bound(self.x as int, SCALE as int, COORD_LIMIT as int);
            lemma_prod_bound(self.y as int, SCALE as int, COORD_LIMIT as int);
            lemma_prod_bound(self.z as int, SCALE as int, COORD_LIMIT as int);
            lemma_div_range(self.x * (SCALE as int), k as int);
            lemma_div_range(self.y * (SCALE as int), k as int);
            lemma_div_range(self.z * (SCALE as int), k as int);
        }
        MyVec3 { x: fdiv(self.x, k), y: fdiv(self.y, k), z: fdiv(self.z, k) }
    }

    pub fn dot(&self, rhs: MyVec3) -> (r: i64)
        requires
            self.bounded(COORD_LIMIT as int),
            rhs.bounded(COORD_LIMIT as int),
        ensures
            r == self.dot_raw(rhs) / (SCALE as int),
    {
        proof {
            lemma_prod_bound(self.x as int, rhs.x as int, COORD_LIMIT as int);
            lemma_prod_bound(self.y as int, rhs.y as int, COORD_LIMIT as int);
            lemma_prod_bound(self.z as int, rhs.z as int, COORD_LIMIT as int);
        }
        let p: i128 = (self.x as i128) * (rhs.x as i128) + (self.y as i128) * (rhs.y as i128)
            + (self.z as i128) * (rhs.z as i128);
        let q: i128 = div_floor(p, SCALE as i128);
        proof {
            lemma_div_range(p as int, SCALE as int);
        }
        q as i64
    }

    pub fn cross(&self, rhs: MyVec3) -> (r: MyVec3)
        requires
            self.bounded(COORD_LIMIT as int),
            rhs.bounded(COORD_LIMIT as int),
        ensures
            r.x == (self.y * rhs.z - self.z * rhs.y) / (SCALE as int),
            r.y == (self.z * rhs.x - self.x * rhs.z) / (SCALE as int),
            r.z == (self.x * rhs.y - self.y * rhs.x) / (SCALE as int),
    {
        proof {
            lemma_prod_bound(self.x as int, rhs.x as int, COORD_LIMIT as int);
            lemma_prod_bound(self.x as int, rhs.y as int, COORD_LIMIT as int);
            lemma_prod_bound(self.x as int, rhs.z as int, COORD_LIMIT as int);
            lemma_prod_bound(self.y as int, rhs.x as int, COORD_LIMIT as int);
            lemma_prod_bound(self.y as int, rhs.z as int, COORD_LIMIT as int);
            lemma_prod_bound(self.z as int, rhs.x as int, COORD_LIMIT as int);
            lemma_prod_bound(self.z as int, rhs.y as int, COORD_LIMIT as int);
        }
        let px: i128 = (self.y as i128) * (rhs.z as i128) - (self.z as i128) * (rhs.y as i128);
        let py: i128 = (self.z as i128) * (rhs.x as i128) - (self.x as i128) * (rhs.z as i128);
        let pz: i128 = (self.x as i128) * (rhs.y as i128) - (self.y as i128) * (rhs.x as i128);
        let cx: i128 = div_floor(px, SCALE as i128);
        let cy: i128 = div_floor(py, SCALE as i128);
        let cz: i128 = div_floor(pz, SCALE as i128);
        proof {
            lemma_div_range(px as int, SCALE as int);
            lemma_div_range(py as int, SCALE as int);
            lemma_div_range(pz as int, SCALE as int);
        }
        MyVec3 { x: cx as i64, y: cy as i64, z: cz as i64 }
    }

    pub fn squared_length(&self) -> (r: i64)
        requires
            self.bounded(COORD_LIMIT as int),
        ensures
            r == self.sq_units(),
            r >= 0,
    {
        proof {
            lemma_prod_bound(self.x as int, self.x as int, COORD_LIMIT as int);
            lemma_prod_bound(self.y as int, self.y as int, COORD_LIMIT as int);
            lemma_prod_bound(self.z as int, self.z as int, COORD_LIMIT as int);
            assert(self.dot_raw(*self) >= 0) by (nonlinear_arith);
            lemma_div_range(self.dot_raw(*self), SCALE as int);
        }
        self.dot(*self)
    }

    /// Length in fixed-point units: the floor square root of
    /// `sq_units * SCALE`.
    pub fn length(&self) -> (r: i64)
        requires
            self.bounded(COORD_LIMIT as int),
        ensures
            r == sqrt_spec(self.sq_units() * (SCALE as int)),
            r >= 0,
    {
        let sq: i64 = self.squared_length();
        fsqrt(sq)
    }

    /// The fixed-point unit vector in the direction of `v`: each component is
    /// divided by the floor square root of the raw inner product, so the
    /// result's components lie in `[-SCALE, SCALE]`.
    pub open spec fn unit_of(v: MyVec3) -> MyVec3 {
        let len = sqrt_spec(v.dot_raw(v));
        MyVec3 {
            x: (v.x * SCALE / len) as i64,
            y: (v.y * SCALE / len) as i64,
            z: (v.z * SCALE / len) as i64,
        }
    }

    /// Rescale in place to (approximately) unit length.
    pub fn normalize(&mut self)
        requires
            old(self).bounded(NORM_LIMIT as int),
            old(self).dot_raw(*old(self)) >= 1,
        ensures
            *final(self) == MyVec3::unit_of(*old(self)),
            final(self).x == old(self).x * SCALE / sqrt_spec(old(self).dot_raw(*old(self))),
            final(self).y == old(self).y * SCALE / sqrt_spec(old(self).dot_raw(*old(self))),
            final(self).z == old(self).z * SCALE / sqrt_spec(old(self).dot_raw(*old(self))),
            final(self).bounded(SCALE as int),
            final(self).dot_raw(*final(self)) >= 0x4000_0000,
    {
        let u = vec3_normalize(*self);
        self.x = u.x;
        self.y = u.y;
        self.z = u.z;
    }
}

/// The unit vector of `v`, with a fixed downward-axis fallback wherever a
/// unit vector cannot be formed: a zero input, or a normalized result that
/// still rounds to zero.
pub open spec fn spec_safe_unit(v: MyVec3) -> MyVec3 {
    if v.dot_raw(v) >= 1 {
        let u = MyVec3::unit_of(v);
        if u.dot_raw(u) >= 1 {
            u
        } else {
            MyVec3 { x: 0, y: 0, z: (-SCALE) as i64 }
        }
    } else {
        MyVec3 { x: 0, y: 0, z: (-SCALE) as i64 }
    }
}

/// Normalize, falling back to the downward axis on degenerate input, so that
/// the result is always a usable nonzero unit direction.
pub fn safe_unit(v: MyVec3) -> (r: MyVec3)
    requires
        v.bounded(NORM_LIMIT as int),
    ensures
        r == spec_safe_unit(v),
        r.bounded(SCALE as int),
        r.dot_raw(r) >= 0x4000_0000,
{
    proof {
        lemma_prod_bound(v.x as int, v.x as int, NORM_LIMIT as int);
        lemma_prod_bound(v.y as int, v.y as int, NORM_LIMIT as int);
        lemma_prod_bound(v.z as int, v.z as int, NORM_LIMIT as int);
    }
    let raw: i128 = (v.x as i128) * (v.x as i128) + (v.y as i128) * (v.y as i128) + (v.z as i128)
        * (v.z as i128);
    if raw >= 1 {
        let u: MyVec3 = vec3_normalize(v);
        proof {
            lemma_prod_bound(u.x as int, u.x as int, SCALE as int);
            lemma_prod_bound(u.y as int, u.y as int, SCALE as int);
            lemma_prod_bound(u.z as int, u.z as int, SCALE as int);
        }
        let uraw: i128 = (u.x as i128) * (u.x as i128) + (u.y as i128) * (u.y as i128) + (
        u.z as i128) * (u.z as i128);
        if uraw >= 1 {
            u
        } else {
            proof {
                assert((-65536) * (-65536) >= 1) by (nonlinear_arith);
            }
            MyVec3 { x: 0, y: 0, z: -SCALE }
        }
    } else {
        proof {
            assert((-65536) * (-65536) >= 1) by (nonlinear_arith);
        }
        MyVec3 { x: 0, y: 0, z: -SCALE }
    }
}

/// A fresh copy of `v` rescaled to (approximately) unit length.
pub fn vec3_normalize(v: MyVec3) -> (r: MyVec3)
    requires
        v.bounded(NORM_LIMIT as int),
        v.dot_raw(v) >= 1,
    ensures
        r == MyVec3::unit_of(v),
        r.x == v.x * SCALE / sqrt_spec(v.dot_raw(v)),
        r.y == v.y * SCALE / sqrt_spec(v.dot_raw(v)),
        r.z == v.z * SCALE / sqrt_spec(v.dot_raw(v)),
        r.bounded(SCALE as int),
        r.dot_raw(r) >= 0x4000_0000,
{
    proof {
        lemma_prod_bound(v.x as int, v.x as int, NORM_LIMIT as int);
        lemma_prod_bound(v.y as int, v.y as int, NORM_LIMIT as int);
        lemma_prod_bound(v.z as int, v.z as int, NORM_LIMIT as int);
        assert(v.x as int * (v.x as int) >= 0 && v.y as int * (v.y as int) >= 0
            && v.z as int * (v.z as int) >= 0) by (nonlinear_arith);
    }
    let raw: i128 = (v.x as i128) * (v.x as i128) + (v.y as i128) * (v.y as i128)
        + (v.z as i128) * (v.z as i128);
    let lu: u128 = crate::fixed::isqrt(raw as u128);
    proof {
        assert(lu < 0x1_0000_0000_0000_0000u128) by (nonlinear_arith)
            requires
                (lu as int) * (lu as int) <= raw as int
                    && raw as int <= 0x400_0000_0000_0000_0000_0000_0000_0000;
    }
    let len: i128 = lu as i128;
    proof {
        crate::fixed::lemma_sqrt_spec_bounds(raw as int);
        assert(len >= 1) by (nonlinear_arith)
            requires len >= 0 && raw >= 1 && (raw as int) < (len as int + 1) * (len as int + 1);
        lemma_unit_component_bound(v.x as int, raw as int, len as int);
        lemma_unit_component_bound(v.y as int, raw as int, len as int);
        lemma_unit_component_bound(v.z as int, raw as int, len as int);
        lemma_prod_bound(v.x as int, SCALE as int, NORM_LIMIT as int);
        lemma_prod_bound(v.y as int, SCALE as int, NORM_LIMIT as int);
        lemma_prod_bound(v.z as int, SCALE as int, NORM_LIMIT as int);
    }
    let ux: i128 = div_floor((v.x as i128) * (SCALE as i128), len);
    let uy: i128 = div_floor((v.y as i128) * (SCALE as i128), len);
    let uz: i128 = div_floor((v.z as i128) * (SCALE as i128), len);
    proof {
        let xx: int = v.x * (v.x as int);
        let yy: int = v.y * (v.y as int);
        let zz: int = v.z * (v.z as int);
        assert(ux * ux >= 0 && uy * uy >= 0 && uz * uz >= 0) by (nonlinear_arith);
        assert(xx >= 0 && yy >= 0 && zz >= 0) by (nonlinear_arith)
            requires
                xx == v.x * (v.x as int) && yy == v.y * (v.y as int) && zz == v.z * (v.z as int);
        if xx >= yy && xx >= zz {
            assert(4 * xx >= raw) by (nonlinear_arith)
                requires
                    xx >= yy && xx >= zz && xx >= 0 && yy >= 0 && zz >= 0 && raw == xx + yy + zz;
            lemma_unit_component_large(v.x as int, raw as int, len as int);
        } else if yy >= xx && yy >= zz {
            assert(4 * yy >= raw) by (nonlinear_arith)
                requires
                    yy >= xx && yy >= zz && xx >= 0 && yy >= 0 && zz >= 0 && raw == xx + yy + zz;
            lemma_unit_component_large(v.y as int, raw as int, len as int);
        } else {
            assert(zz >= xx && zz >= yy);
            assert(4 * zz >= raw) by (nonlinear_arith)
                requires
                    zz >= xx && zz >= yy && xx >= 0 && yy >= 0 && zz >= 0 && raw == xx + yy + zz;
            lemma_unit_component_large(v.z as int, raw as int, len as int);
        }
    }
    MyVec3 { x: ux as i64, y: uy as i64, z: uz as i64 }
}

/// Fixed-point product of two bounded scalars.
fn fixed_prod(a: i64, b: i64) -> (r: i64)
    requires
        -(COORD_LIMIT as int) <= a <= COORD_LIMIT as int,
        -(COORD_LIMIT as int) <= b <= COORD_LIMIT as int,
    ensures
        r == a * b / (SCALE as int),
{
    proof {
        lemma_prod_bound(a as int, b as int, COORD_LIMIT as int);
        lemma_div_range((a as int) * (b as int), SCALE as int);
    }
    let p: i128 = (a as i128) * (b as i128);
    let q: i128 = div_floor(p, SCALE as i128);
    q as i64
}

/// A component holding at least a quarter of the squared length maps, under
/// unit scaling, to at least half a unit: the normalized vector cannot
/// collapse to zero.
proof fn lemma_unit_component_large(x: int, raw: int, len: int)
    requires
        len >= 1,
        len * len <= raw,
        raw < (len + 1) * (len + 1),
        4 * (x * x) >= raw,
    ensures
        (x * SCALE / len) * (x * SCALE / len) >= 0x4000_0000,
{
    assert(2 * x >= len || 2 * x <= -len) by (nonlinear_arith)
        requires 4 * (x * x) >= raw && len * len <= raw && len >= 1;
    if 2 * x >= len {
        assert(x * SCALE >= len * 32768) by (nonlinear_arith)
            requires 2 * x >= len && SCALE == 65536;
        lemma_div_is_ordered(len * 32768, x * SCALE, len);
        lemma_div_multiples_vanish(32768, len);
        assert((x * SCALE / len) * (x * SCALE / len) >= 0x4000_0000) by (nonlinear_arith)
            requires x * SCALE / len >= 32768;
    } else {
        assert(x * SCALE <= len * (-32768)) by (nonlinear_arith)
            requires 2 * x <= -len && SCALE == 65536;
        lemma_div_is_ordered(x * SCALE, len * (-32768), len);
        lemma_div_multiples_vanish(-32768, len);
        assert((x * SCALE / len) * (x * SCALE / len) >= 0x4000_0000) by (nonlinear_arith)
            requires x * SCALE / len <= -32768;
    }
}

/// Dividing a component by the vector's fixed-point length yields a value
/// within one unit scale.
proof fn lemma_unit_component_bound(x: int, raw: int, len: int)
    requires
        x * x <= raw,
        len >= 1,
        len * len <= raw,
        raw < (len + 1) * (len + 1),
    ensures
        -SCALE <= x * SCALE / len <= SCALE,
{
    assert(-len <= x <= len) by (nonlinear_arith)
        requires x * x <= raw && raw < (len + 1) * (len + 1) && len >= 1;
    assert(x * SCALE <= len * SCALE && len * (-(SCALE as int)) <= x * SCALE) by (nonlinear_arith)
        requires -len <= x <= len && len >= 1 && SCALE == 65536;
    lemma_div_is_ordered(x * SCALE, len * (SCALE as int), len);
    lemma_div_is_ordered(len * (-(SCALE as int)), x * SCALE, len);
    lemma_div_multiples_vanish(SCALE as int, len);
    lemma_div_multiples_vanish(-(SCALE as int), len);
}

/// A vector with uniform random components in `[0, 1)`.
pub fn random_vec3(rng: &mut crate::common::RandomSource) -> (r: MyVec3)
    ensures
        0 <= r.x < SCALE,
        0 <= r.y < SCALE,
        0 <= r.z < SCALE,
        r.bounded(SCALE as int),
{
    let x: i64 = crate::common::uniform_random(rng);
    let y: i64 = crate::common::uniform_random(rng);
    let z: i64 = crate::common::uniform_random(rng);
    MyVec3 { x, y, z }
}

/// A vector with uniform random components in `[min, max]`.
pub fn random_in_interval_vec3(min: i64, max: i64, rng: &mut crate::common::RandomSource) -> (r:
    MyVec3)
    requires
        -(COORD_LIMIT as int) <= min <= max <= COORD_LIMIT as int,
    ensures
        min <= r.x <= max,
        min <= r.y <= max,
        min <= r.z <= max,
{
    let x: i64 = crate::common::random_in_interval(min, max, rng);
    let y: i64 = crate::common::random_in_interval(min, max, rng);
    let z: i64 = crate::common::random_in_interval(min, max, rng);
    MyVec3 { x, y, z }
}

} // verus!
