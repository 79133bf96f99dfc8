//! Sphere primitives and their ray-intersection rule.
//!
//! The intersection solves the fixed-point quadratic exactly: coefficients are
//! raw inner products (scale `SCALE^2`), the discriminant is their combination
//! (scale `SCALE^4`), and the candidate distances come from the floor square
//! root and floor division, so every returned field is pinned to an integer
//! formula of the inputs.

use vstd::prelude::*;
use crate::fixed::{
    SCALE, div_floor, isqrt, lemma_div_const_range, lemma_div_range, lemma_prod_bound,
    lemma_prod_bound2, lemma_scaled_bound, sqrt_spec,
};
use crate::material::Material;
use crate::my_vec3::{MyVec3, vec3_normalize};
use crate::ray::Ray;
use crate::rayinfo::RayInfo;

verus! {

/// Largest coordinate magnitude of scene geometry (sphere centers, radii,
/// ray origins).
pub const GEO_LIMIT: i64 = 0x4000_0000;

/// Largest component magnitude of a traced ray's direction; unit directions
/// use at most `SCALE`, and a factor of four is left as slack.
pub const DIR_LIMIT: i64 = 0x4_0000;

/// Largest coordinate magnitude of a traced ray's origin; bounce origins may
/// drift beyond the scene bounds by at most the trace distance per bounce.
pub const RAY_LIMIT: i64 = 0x8_0000_0000;

/// Largest distance along a ray that the intersection tests accept.
pub const DS_LIMIT: i64 = 0x4_0000_0000;

/// Largest cast time resolved for moving primitives.
pub const TIME_LIMIT: i64 = 0x100_0000;

/// Largest speed of a moving sphere.
pub const SPEED_LIMIT: i64 = 0x20_0000;

/// A ray the intersection tests accept: origin within the scene bounds, a
/// nonzero direction of moderate magnitude, and a bounded cast time.
pub open spec fn ray_wf(ray: Ray) -> bool {
    &&& ray.p.bounded(RAY_LIMIT as int)
    &&& ray.direction.bounded(DIR_LIMIT as int)
    &&& ray.direction.dot_raw(ray.direction) >= 1
    &&& -(TIME_LIMIT as int) <= ray.cast_time <= TIME_LIMIT as int
}

/// Non-moving sphere.
#[derive(Clone, Copy, PartialEq, Eq, Structural, Debug)]
pub struct WESphere {
    pub c: MyVec3,
    pub r: i64,
    pub material: Material,
}

impl WESphere {
    pub open spec fn wf(self) -> bool {
        &&& self.c.bounded(GEO_LIMIT as int)
        &&& 1 <= self.r <= GEO_LIMIT
        &&& self.material.wf()
    }

    /// Origin minus center.
    pub open spec fn oc_spec(self, ray: Ray) -> MyVec3 {
        MyVec3 {
            x: (ray.p.x - self.c.x) as i64,
            y: (ray.p.y - self.c.y) as i64,
            z: (ray.p.z - self.c.z) as i64,
        }
    }

    /// Leading quadratic coefficient `|direction|^2`, scale `SCALE^2`.
    pub open spec fn quad_a(self, ray: Ray) -> int {
        ray.direction.dot_raw(ray.direction)
    }

    /// Half middle coefficient `direction . (origin - center)`, scale
    /// `SCALE^2`.
    pub open spec fn quad_h(self, ray: Ray) -> int {
        ray.direction.dot_raw(self.oc_spec(ray))
    }

    /// Constant coefficient `|origin - center|^2 - r^2`, scale `SCALE^2`.
    pub open spec fn quad_c(self, ray: Ray) -> int {
        self.oc_spec(ray).dot_raw(self.oc_spec(ray)) - self.r * self.r
    }

    /// Discriminant `h^2 - a c`, scale `SCALE^4`.
    pub open spec fn disc(self, ray: Ray) -> int {
        self.quad_h(ray) * self.quad_h(ray) - self.quad_a(ray) * self.quad_c(ray)
    }

    /// Nearer candidate distance `(-h - sqrt(disc)) / a`, in fixed-point
    /// units.
    pub open spec fn root_near(self, ray: Ray) -> int {
        (-self.quad_h(ray) - sqrt_spec(self.disc(ray))) * (SCALE as int) / self.quad_a(ray)
    }

    /// Farther candidate distance `(-h + sqrt(disc)) / a`.
    pub open spec fn root_far(self, ray: Ray) -> int {
        (-self.quad_h(ray) + sqrt_spec(self.disc(ray))) * (SCALE as int) / self.quad_a(ray)
    }

    /// The distance reported for a hit, if any: the nearer root when it lies
    /// within `[min_scale, max_scale]`, else the farther root when it does,
    /// else no hit.
    pub open spec fn hit_ds(self, ray: Ray, min_scale: int, max_scale: int) -> Option<int> {
        if self.disc(ray) >= 0 {
            if min_scale <= self.root_near(ray) <= max_scale {
                Some(self.root_near(ray))
            } else if min_scale <= self.root_far(ray) <= max_scale {
                Some(self.root_far(ray))
            } else {
                None
            }
        } else {
            None
        }
    }

    /// The intersection point `origin + ds * direction`.
    pub open spec fn hit_point(self, ray: Ray, ds: int) -> MyVec3 {
        MyVec3 {
            x: (ray.p.x + ds * ray.direction.x / (SCALE as int)) as i64,
            y: (ray.p.y + ds * ray.direction.y / (SCALE as int)) as i64,
            z: (ray.p.z + ds * ray.direction.z / (SCALE as int)) as i64,
        }
    }

    /// The outward normal before unit scaling: `(point - center) / r`.
    pub open spec fn normal_towards(self, ray: Ray, ds: int) -> MyVec3 {
        let pt = self.hit_point(ray, ds);
        MyVec3 {
            x: ((pt.x - self.c.x) * (SCALE as int) / (self.r as int)) as i64,
            y: ((pt.y - self.c.y) * (SCALE as int) / (self.r as int)) as i64,
            z: ((pt.z - self.c.z) * (SCALE as int) / (self.r as int)) as i64,
        }
    }

    /// The unit outward normal; a degenerate zero vector (the intersection
    /// point rounded onto the center) falls back to the upward axis.
    pub open spec fn base_normal(self, ray: Ray, ds: int) -> MyVec3 {
        let m = self.normal_towards(ray, ds);
        if m.dot_raw(m) >= 1 {
            MyVec3::unit_of(m)
        } else {
            MyVec3 { x: 0, y: SCALE, z: 0 }
        }
    }

    /// The reported normal: the unit outward normal, negated when it does not
    /// oppose the ray direction.
    pub open spec fn hit_normal(self, ray: Ray, ds: int) -> MyVec3 {
        let b = self.base_normal(ray, ds);
        if b.dot_raw(ray.direction) < 0 {
            b
        } else {
            MyVec3 { x: (-b.x) as i64, y: (-b.y) as i64, z: (-b.z) as i64 }
        }
    }

    /// The full record reported for a hit.
    pub open spec fn hit_record(self, ray: Ray, min_scale: int, max_scale: int) -> RayInfo {
        let ds = self.hit_ds(ray, min_scale, max_scale).unwrap();
        RayInfo {
            intersect: self.hit_point(ray, ds),
            normal: self.hit_normal(ray, ds),
            ds: ds as i64,
            is_front: self.base_normal(ray, ds).dot_raw(ray.direction) < 0,
            material: self.material,
        }
    }

    pub fn intersect(&self, ray: &Ray, min_scale: i64, max_scale: i64, _cast_time: i64) -> (res: (
        bool,
        RayInfo,
    ))
        requires
            self.wf(),
            ray_wf(*ray),
            -(DS_LIMIT as int) <= min_scale <= DS_LIMIT as int,
            -(DS_LIMIT as int) <= max_scale <= DS_LIMIT as int,
        ensures
            res.0 == self.hit_ds(*ray, min_scale as int, max_scale as int).is_some(),
            !res.0 ==> res.1 == RayInfo::empty_spec(),
            res.0 ==> res.1 == self.hit_record(*ray, min_scale as int, max_scale as int),
            res.0 ==> ({
                let ds = self.hit_ds(*ray, min_scale as int, max_scale as int).unwrap();
                &&& res.1.ds == ds
                &&& min_scale <= res.1.ds <= max_scale
                &&& res.1.intersect == self.hit_point(*ray, ds)
                &&& res.1.normal == self.hit_normal(*ray, ds)
                &&& res.1.is_front == (self.base_normal(*ray, ds).dot_raw(ray.direction) < 0)
                &&& res.1.material == self.material
                &&& res.1.normal.dot_raw(ray.direction) <= 0
                &&& res.1.normal.bounded(SCALE as int)
                &&& res.1.normal.dot_raw(res.1.normal) >= 0x4000_0000
            }),
    {
        let d = ray.direction;
        let ocx: i64 = ray.p.x - self.c.x;
        let ocy: i64 = ray.p.y - self.c.y;
        let ocz: i64 = ray.p.z - self.c.z;
        proof {
            lemma_prod_bound(d.x as int, d.x as int, DIR_LIMIT as int);
            lemma_prod_bound(d.y as int, d.y as int, DIR_LIMIT as int);
            lemma_prod_bound(d.z as int, d.z as int, DIR_LIMIT as int);
            lemma_prod_bound2(d.x as int, ocx as int, DIR_LIMIT as int, 0x10_0000_0000);
            lemma_prod_bound2(d.y as int, ocy as int, DIR_LIMIT as int, 0x10_0000_0000);
            lemma_prod_bound2(d.z as int, ocz as int, DIR_LIMIT as int, 0x10_0000_0000);
            lemma_prod_bound(ocx as int, ocx as int, 0x10_0000_0000);
            lemma_prod_bound(ocy as int, ocy as int, 0x10_0000_0000);
            lemma_prod_bound(ocz as int, ocz as int, 0x10_0000_0000);
            lemma_prod_bound(self.r as int, self.r as int, GEO_LIMIT as int);
        }
        let a2: i128 = (d.x as i128) * (d.x as i128) + (d.y as i128) * (d.y as i128) + (
        d.z as i128) * (d.z as i128);
        let h2: i128 = (d.x as i128) * (ocx as i128) + (d.y as i128) * (ocy as i128) + (
        d.z as i128) * (ocz as i128);
        let c2: i128 = (ocx as i128) * (ocx as i128) + (ocy as i128) * (ocy as i128) + (
        ocz as i128) * (ocz as i128) - (self.r as i128) * (self.r as i128);
        proof {
            assert(a2 == self.quad_a(*ray));
            assert(h2 == self.quad_h(*ray));
            assert(c2 == self.quad_c(*ray));
            assert(a2 >= 1);
            lemma_prod_bound(h2 as int, h2 as int, 0xC0_0000_0000_0000);
            lemma_prod_bound2(a2 as int, c2 as int, 0x30_0000_0000, 0x2000_0000_0000_0000_0000);
        }
        let disc: i128 = h2 * h2 - a2 * c2;
        if disc < 0 {
            return (false, RayInfo::empty());
        }
        let squ: u128 = isqrt(disc as u128);
        proof {
            assert(squ < 0x2000_0000_0000_0000u128) by (nonlinear_arith)
                requires
                    (squ as int) * (squ as int) <= disc as int
                        && disc as int <= 0x100_0000_0000_0000_0000_0000_0000_0000;
        }
        let sq: i128 = squ as i128;
        let num_near: i128 = -h2 - sq;
        let num_far: i128 = -h2 + sq;
        let ds_near: i128 = div_floor(num_near * (SCALE as i128), a2);
        proof {
            lemma_div_range(num_near * (SCALE as int), a2 as int);
            lemma_div_range(num_far * (SCALE as int), a2 as int);
        }
        let mut ds: i128 = ds_near;
        let mut in_range: bool = ds >= (min_scale as i128) && ds <= (max_scale as i128);
        if !in_range {
            ds = div_floor(num_far * (SCALE as i128), a2);
            in_range = ds >= (min_scale as i128) && ds <= (max_scale as i128);
        }
        if !in_range {
            return (false, RayInfo::empty());
        }
        let dsi: i64 = ds as i64;
        let point: MyVec3 = ray.at(dsi);
        proof {
            lemma_prod_bound2(dsi as int, d.x as int, DS_LIMIT as int, DIR_LIMIT as int);
            lemma_prod_bound2(dsi as int, d.y as int, DS_LIMIT as int, DIR_LIMIT as int);
            lemma_prod_bound2(dsi as int, d.z as int, DS_LIMIT as int, DIR_LIMIT as int);
            lemma_div_const_range(dsi * d.x, 0x10_0000_0000, SCALE as int);
            lemma_div_const_range(dsi * d.y, 0x10_0000_0000, SCALE as int);
            lemma_div_const_range(dsi * d.z, 0x10_0000_0000, SCALE as int);
        }
        let mnx: i128 = ((point.x - self.c.x) as i128) * (SCALE as i128);
        let mny: i128 = ((point.y - self.c.y) as i128) * (SCALE as i128);
        let mnz: i128 = ((point.z - self.c.z) as i128) * (SCALE as i128);
        let mx: i128 = div_floor(mnx, self.r as i128);
        let my: i128 = div_floor(mny, self.r as i128);
        let mz: i128 = div_floor(mnz, self.r as i128);
        proof {
            lemma_div_range(mnx as int, self.r as int);
            lemma_div_range(mny as int, self.r as int);
            lemma_div_range(mnz as int, self.r as int);
        }
        let m = MyVec3 { x: mx as i64, y: my as i64, z: mz as i64 };
        proof {
            assert(m == self.normal_towards(*ray, ds as int));
            lemma_prod_bound(m.x as int, m.x as int, 0x40_0000_0000_0000);
            lemma_prod_bound(m.y as int, m.y as int, 0x40_0000_0000_0000);
            lemma_prod_bound(m.z as int, m.z as int, 0x40_0000_0000_0000);
            assert(m.x as int * (m.x as int) >= 0 && m.y as int * (m.y as int) >= 0 && m.z as int
                * (m.z as int) >= 0) by (nonlinear_arith);
        }
        let raw: i128 = (m.x as i128) * (m.x as i128) + (m.y as i128) * (m.y as i128) + (
        m.z as i128) * (m.z as i128);
        let base: MyVec3 = if raw >= 1 {
            vec3_normalize(m)
        } else {
            MyVec3 { x: 0, y: SCALE, z: 0 }
        };
        proof {
            assert(base == self.base_normal(*ray, ds as int));
            if raw < 1 {
                assert(65536int * 65536 >= 0x4000_0000) by (nonlinear_arith);
            }
            lemma_prod_bound2(base.x as int, d.x as int, SCALE as int, DIR_LIMIT as int);
            lemma_prod_bound2(base.y as int, d.y as int, SCALE as int, DIR_LIMIT as int);
            lemma_prod_bound2(base.z as int, d.z as int, SCALE as int, DIR_LIMIT as int);
        }
        let s0: i128 = (base.x as i128) * (d.x as i128) + (base.y as i128) * (d.y as i128) + (
        base.z as i128) * (d.z as i128);
        let is_front: bool = s0 < 0;
        let normal: MyVec3 = if is_front {
            base
        } else {
            base.neg()
        };
        proof {
            assert(s0 == base.dot_raw(ray.direction));
            if !is_front {
                assert(normal.dot_raw(ray.direction) == -base.dot_raw(ray.direction))
                    by (nonlinear_arith)
                    requires
                        normal.x == -base.x && normal.y == -base.y && normal.z == -base.z
                            && normal.dot_raw(ray.direction) == normal.x * ray.direction.x
                            + normal.y * ray.direction.y + normal.z * ray.direction.z
                            && base.dot_raw(ray.direction) == base.x * ray.direction.x + base.y
                            * ray.direction.y + base.z * ray.direction.z;
                assert(normal.dot_raw(normal) == base.dot_raw(base)) by (nonlinear_arith)
                    requires
                        normal.x == -base.x && normal.y == -base.y && normal.z == -base.z
                            && normal.dot_raw(normal) == normal.x * normal.x + normal.y * normal.y
                            + normal.z * normal.z && base.dot_raw(base) == base.x * base.x + base.y
                            * base.y + base.z * base.z;
            }
            assert(normal == self.hit_normal(*ray, ds as int));
        }
        (true, RayInfo { intersect: point, normal, ds: dsi, is_front, material: self.material })
    }
}

/// Any exact root `ds` of the intersection quadratic
/// `|d|^2 ds^2 + 2 (d . (p - c)) ds + (|p - c|^2 - r^2) == 0` places the
/// reached point `p + ds d` exactly on the sphere's surface:
/// `|p + ds d - c|^2 == r^2`. The executable intersection computes a floor
/// approximation of such a root, so its reported points track the surface up
/// to rounding.
pub proof fn lemma_root_point_on_sphere(
    px: int,
    py: int,
    pz: int,
    dx: int,
    dy: int,
    dz: int,
    cx: int,
    cy: int,
    cz: int,
    r: int,
    ds: int,
)
    requires
        (dx * dx + dy * dy + dz * dz) * (ds * ds) + 2 * ((dx * (px - cx) + dy * (py - cy) + dz * (
        pz - cz)) * ds) + ((px - cx) * (px - cx) + (py - cy) * (py - cy) + (pz - cz) * (pz - cz) - r
            * r) == 0,
    ensures
        (px + ds * dx - cx) * (px + ds * dx - cx) + (py + ds * dy - cy) * (py + ds * dy - cy) + (pz
            + ds * dz - cz) * (pz + ds * dz - cz) == r * r,
{
    let ux = px - cx;
    let uy = py - cy;
    let uz = pz - cz;
    assert((ux + ds * dx) * (ux + ds * dx) == ux * ux + 2 * ((dx * ux) * ds) + (dx * dx) * (ds
        * ds)) by (nonlinear_arith);
    assert((uy + ds * dy) * (uy + ds * dy) == uy * uy + 2 * ((dy * uy) * ds) + (dy * dy) * (ds
        * ds)) by (nonlinear_arith);
    assert((uz + ds * dz) * (uz + ds * dz) == uz * uz + 2 * ((dz * uz) * ds) + (dz * dz) * (ds
        * ds)) by (nonlinear_arith);
    assert((dx * dx + dy * dy + dz * dz) * (ds * ds) == (dx * dx) * (ds * ds) + (dy * dy) * (ds
        * ds) + (dz * dz) * (ds * ds)) by (nonlinear_arith);
    assert((dx * ux + dy * uy + dz * uz) * ds == (dx * ux) * ds + (dy * uy) * ds + (dz * uz) * ds)
        by (nonlinear_arith);
    assert(px + ds * dx - cx == ux + ds * dx);
    assert(py + ds * dy - cy == uy + ds * dy);
    assert(pz + ds * dz - cz == uz + ds * dz);
}

/// A sphere translating at constant speed along a fixed unit direction.
/// Build it through `new`, which normalizes the direction.
#[derive(Clone, Copy, PartialEq, Eq, Structural, Debug)]
pub struct WEMovingSphere {
    pub sphere_zero: WESphere,
    pub speed: i64,
    pub direction: MyVec3,
}

impl WEMovingSphere {
    pub open spec fn wf(self) -> bool {
        &&& self.sphere_zero.c.bounded(GEO_LIMIT as int / 2)
        &&& 1 <= self.sphere_zero.r <= GEO_LIMIT
        &&& self.sphere_zero.material.wf()
        &&& self.direction.bounded(SCALE as int)
        &&& -(SPEED_LIMIT as int) <= self.speed <= SPEED_LIMIT as int
    }

    /// The direction is normalized at construction, not by the caller.
    pub fn new(sphere_zero: WESphere, speed: i64, direction: MyVec3) -> (r: WEMovingSphere)
        requires
            sphere_zero.c.bounded(GEO_LIMIT as int / 2),
            1 <= sphere_zero.r <= GEO_LIMIT,
            sphere_zero.material.wf(),
            direction.bounded(crate::my_vec3::NORM_LIMIT as int),
            direction.dot_raw(direction) >= 1,
            -(SPEED_LIMIT as int) <= speed <= SPEED_LIMIT as int,
        ensures
            r.sphere_zero == sphere_zero,
            r.speed == speed,
            r.direction == MyVec3::unit_of(direction),
            r.wf(),
    {
        WEMovingSphere { sphere_zero, speed, direction: vec3_normalize(direction) }
    }

    /// Where the sphere stands at cast time `t`:
    /// `center + (t * speed) * direction`.
    pub open spec fn sphere_at(self, t: int) -> WESphere {
        let k = t * self.speed / (SCALE as int);
        WESphere {
            c: MyVec3 {
                x: (self.sphere_zero.c.x + k * self.direction.x / (SCALE as int)) as i64,
                y: (self.sphere_zero.c.y + k * self.direction.y / (SCALE as int)) as i64,
                z: (self.sphere_zero.c.z + k * self.direction.z / (SCALE as int)) as i64,
            },
            r: self.sphere_zero.r,
            material: self.sphere_zero.material,
        }
    }

    pub fn intersect(&self, ray: &Ray, min_scale: i64, max_scale: i64, cast_time: i64) -> (res: (
        bool,
        RayInfo,
    ))
        requires
            self.wf(),
            ray_wf(*ray),
            -(DS_LIMIT as int) <= min_scale <= DS_LIMIT as int,
            -(DS_LIMIT as int) <= max_scale <= DS_LIMIT as int,
            -(TIME_LIMIT as int) <= cast_time <= TIME_LIMIT as int,
        ensures
            ({
                let st = self.sphere_at(cast_time as int);
                &&& res.0 == st.hit_ds(*ray, min_scale as int, max_scale as int).is_some()
                &&& !res.0 ==> res.1 == RayInfo::empty_spec()
                &&& res.0 ==> res.1 == st.hit_record(*ray, min_scale as int, max_scale as int)
                &&& res.0 ==> ({
                    let ds = st.hit_ds(*ray, min_scale as int, max_scale as int).unwrap();
                    &&& res.1.ds == ds
                    &&& min_scale <= res.1.ds <= max_scale
                    &&& res.1.intersect == st.hit_point(*ray, ds)
                    &&& res.1.normal == st.hit_normal(*ray, ds)
                    &&& res.1.is_front == (st.base_normal(*ray, ds).dot_raw(ray.direction) < 0)
                    &&& res.1.material == self.sphere_zero.material
                    &&& res.1.normal.dot_raw(ray.direction) <= 0
                    &&& res.1.normal.bounded(SCALE as int)
                    &&& res.1.normal.dot_raw(res.1.normal) >= 0x4000_0000
                })
            }),
    {
        proof {
            lemma_prod_bound2(cast_time as int, self.speed as int, TIME_LIMIT as int,
                SPEED_LIMIT as int);
            lemma_div_const_range(cast_time * self.speed, 0x2000_0000, SCALE as int);
        }
        let k: i64 = crate::fixed::fmul(cast_time, self.speed);
        proof {
            lemma_scaled_bound(k as int, self.direction.x as int, 0x2000_0000);
            lemma_scaled_bound(k as int, self.direction.y as int, 0x2000_0000);
            lemma_scaled_bound(k as int, self.direction.z as int, 0x2000_0000);
        }
        let shift: MyVec3 = self.direction.scale(k);
        let c: MyVec3 = self.sphere_zero.c.add(shift);
        let sphere_t = WESphere { c, r: self.sphere_zero.r, material: self.sphere_zero.material };
        proof {
            assert(sphere_t == self.sphere_at(cast_time as int));
        }
        sphere_t.intersect(ray, min_scale, max_scale, cast_time)
    }
}

} // verus!
