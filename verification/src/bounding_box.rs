//! Axis-aligned bounding region: a fast, conservative reject/accept filter.
//!
//! The slab test is carried out on exact rationals: each axis yields an
//! interval of ray scales as a pair of numerators over a positive
//! denominator, and the three intervals overlap exactly when every lower
//! numerator is below every upper numerator under cross-multiplication. A ray
//! with a zero direction component on any axis conservatively reports a hit.

use vstd::prelude::*;
use crate::ray::Ray;
use crate::rayinfo::RayInfo;
use crate::world_sphere::{GEO_LIMIT, ray_wf};

verus! {

/// The space between six axis-aligned planes.
#[derive(Clone, Copy, PartialEq, Eq, Structural, Debug)]
pub struct WEBoundingBox {
    pub x0: i64,
    pub x1: i64,
    pub y0: i64,
    pub y1: i64,
    pub z0: i64,
    pub z1: i64,
}

/// The scale interval in which a ray crosses one axis's slab, as
/// `(lower numerator, upper numerator, positive denominator)`.
pub open spec fn spec_axis_interval(c0: int, c1: int, p: int, d: int) -> (int, int, int) {
    if d > 0 {
        (c0 - p, c1 - p, d)
    } else {
        (p - c1, p - c0, -d)
    }
}

/// One lower bound lies strictly below one upper bound:
/// `a.lo / a.den < b.hi / b.den`, cross-multiplied.
pub open spec fn spec_below(a: (int, int, int), b: (int, int, int)) -> bool {
    a.0 * b.2 < b.1 * a.2
}

impl WEBoundingBox {
    /// Planes are pairwise ordered and within the scene bounds.
    pub open spec fn wf(self) -> bool {
        &&& self.x0 < self.x1
        &&& self.y0 < self.y1
        &&& self.z0 < self.z1
        &&& -(GEO_LIMIT as int) <= self.x0 <= GEO_LIMIT as int
        &&& -(GEO_LIMIT as int) <= self.x1 <= GEO_LIMIT as int
        &&& -(GEO_LIMIT as int) <= self.y0 <= GEO_LIMIT as int
        &&& -(GEO_LIMIT as int) <= self.y1 <= GEO_LIMIT as int
        &&& -(GEO_LIMIT as int) <= self.z0 <= GEO_LIMIT as int
        &&& -(GEO_LIMIT as int) <= self.z1 <= GEO_LIMIT as int
    }

    /// Whether the ray might touch the region: true when a direction
    /// component is zero (conservative), else exactly when the three axis
    /// intervals share a point.
    pub open spec fn spec_hit(self, ray: Ray) -> bool {
        if ray.direction.x == 0 || ray.direction.y == 0 || ray.direction.z == 0 {
            true
        } else {
            let ax = spec_axis_interval(self.x0 as int, self.x1 as int, ray.p.x as int,
                ray.direction.x as int);
            let ay = spec_axis_interval(self.y0 as int, self.y1 as int, ray.p.y as int,
                ray.direction.y as int);
            let az = spec_axis_interval(self.z0 as int, self.z1 as int, ray.p.z as int,
                ray.direction.z as int);
            spec_below(ax, ax) && spec_below(ax, ay) && spec_below(ax, az) && spec_below(ay, ax)
                && spec_below(ay, ay) && spec_below(ay, az) && spec_below(az, ax) && spec_below(
                az,
                ay,
            ) && spec_below(az, az)
        }
    }

    pub fn intersect(&self, ray: &Ray, _min_scale: i64, _max_scale: i64, _cast_time: i64) -> (res:
        (bool, RayInfo))
        requires
            self.wf(),
            ray_wf(*ray),
        ensures
            res.0 == self.spec_hit(*ray),
            res.1 == RayInfo::empty_spec(),
    {
        let d = ray.direction;
        if d.x == 0 || d.y == 0 || d.z == 0 {
            return (true, RayInfo::empty());
        }
        let (ax_lo, ax_hi, ax_d) = axis_interval(self.x0, self.x1, ray.p.x, d.x);
        let (ay_lo, ay_hi, ay_d) = axis_interval(self.y0, self.y1, ray.p.y, d.y);
        let (az_lo, az_hi, az_d) = axis_interval(self.z0, self.z1, ray.p.z, d.z);
        let hit: bool = cross_lt(ax_lo, ax_d, ax_hi, ax_d) && cross_lt(ax_lo, ax_d, ay_hi, ay_d)
            && cross_lt(ax_lo, ax_d, az_hi, az_d) && cross_lt(ay_lo, ay_d, ax_hi, ax_d)
            && cross_lt(ay_lo, ay_d, ay_hi, ay_d) && cross_lt(ay_lo, ay_d, az_hi, az_d)
            && cross_lt(az_lo, az_d, ax_hi, ax_d) && cross_lt(az_lo, az_d, ay_hi, ay_d)
            && cross_lt(az_lo, az_d, az_hi, az_d);
        (hit, RayInfo::empty())
    }
}

/// Normalize one axis's slab crossing to numerators over a positive
/// denominator.
fn axis_interval(c0: i64, c1: i64, p: i64, d: i64) -> (r: (i64, i64, i64))
    requires
        d != 0,
        -(GEO_LIMIT as int) <= c0 <= GEO_LIMIT as int,
        -(GEO_LIMIT as int) <= c1 <= GEO_LIMIT as int,
        -(crate::world_sphere::RAY_LIMIT as int) <= p <= crate::world_sphere::RAY_LIMIT as int,
        -(crate::world_sphere::DIR_LIMIT as int) <= d <= crate::world_sphere::DIR_LIMIT as int,
    ensures
        (r.0 as int, r.1 as int, r.2 as int) == spec_axis_interval(
            c0 as int,
            c1 as int,
            p as int,
            d as int,
        ),
        r.2 > 0,
{
    if d > 0 {
        (c0 - p, c1 - p, d)
    } else {
        (p - c1, p - c0, -d)
    }
}

/// Exact rational comparison `lo_a / d_a < hi_b / d_b` by cross
/// multiplication.
fn cross_lt(lo_a: i64, d_a: i64, hi_b: i64, d_b: i64) -> (r: bool)
    ensures
        r == (lo_a * d_b < hi_b * d_a),
{
    proof {
        crate::fixed::lemma_prod_bound(lo_a as int, d_b as int, 0x8000_0000_0000_0000);
        crate::fixed::lemma_prod_bound(hi_b as int, d_a as int, 0x8000_0000_0000_0000);
    }
    (lo_a as i128) * (d_b as i128) < (hi_b as i128) * (d_a as i128)
}

/// A ray whose origin lies strictly inside the region and whose direction is
/// nonzero on every axis always reports a hit.
pub proof fn lemma_ray_inside_box_hits(bb: WEBoundingBox, ray: Ray)
    requires
        bb.wf(),
        bb.x0 < ray.p.x < bb.x1,
        bb.y0 < ray.p.y < bb.y1,
        bb.z0 < ray.p.z < bb.z1,
        ray.direction.x != 0,
        ray.direction.y != 0,
        ray.direction.z != 0,
    ensures
        bb.spec_hit(ray),
{
    let ax = spec_axis_interval(bb.x0 as int, bb.x1 as int, ray.p.x as int,
        ray.direction.x as int);
    let ay = spec_axis_interval(bb.y0 as int, bb.y1 as int, ray.p.y as int,
        ray.direction.y as int);
    let az = spec_axis_interval(bb.z0 as int, bb.z1 as int, ray.p.z as int,
        ray.direction.z as int);
    lemma_cross_sign(ax.0, ax.1, ax.2, ax.2);
    lemma_cross_sign(ax.0, ay.1, ax.2, ay.2);
    lemma_cross_sign(ax.0, az.1, ax.2, az.2);
    lemma_cross_sign(ay.0, ax.1, ay.2, ax.2);
    lemma_cross_sign(ay.0, ay.1, ay.2, ay.2);
    lemma_cross_sign(ay.0, az.1, ay.2, az.2);
    lemma_cross_sign(az.0, ax.1, az.2, ax.2);
    lemma_cross_sign(az.0, ay.1, az.2, ay.2);
    lemma_cross_sign(az.0, az.1, az.2, az.2);
}

/// A negative lower numerator beats a positive upper numerator whatever the
/// positive denominators.
proof fn lemma_cross_sign(lo: int, hi: int, d_lo: int, d_hi: int)
    by (nonlinear_arith)
    requires
        lo < 0,
        hi > 0,
        d_lo > 0,
        d_hi > 0,
    ensures
        lo * d_hi < hi * d_lo,
{
}

} // verus!
