//! The scene: an ordered collection of primitives and the nearest-hit query.
//!
//! The aggregation contract mirrors the scan exactly: a primitive contributes
//! only when its own intersection succeeds and its distance is strictly less
//! than the closest seen so far (initialized to `max_scale`), so the first
//! primitive wins on exact ties.

use vstd::prelude::*;
use crate::my_vec3::MyVec3;
use crate::material::Material;
use crate::ray::Ray;
use crate::rayinfo::RayInfo;
use crate::world_sphere::{
    DS_LIMIT, GEO_LIMIT, SPEED_LIMIT, TIME_LIMIT, WEMovingSphere, WESphere, ray_wf,
};

verus! {

/// A closed set of primitive kinds, dispatched by a single match so that the
/// hot intersection loop stays branch-predictable and allocation-free.
#[derive(Clone, Copy, PartialEq, Eq, Structural, Debug)]
pub enum Primitive {
    Sphere(WESphere),
    Moving(WEMovingSphere),
}

impl Primitive {
    pub open spec fn wf(self) -> bool {
        match self {
            Primitive::Sphere(s) => s.wf(),
            Primitive::Moving(m) => m.wf(),
        }
    }

    /// The static sphere this primitive stands at, at cast time `t`.
    pub open spec fn resolved(self, t: int) -> WESphere {
        match self {
            Primitive::Sphere(s) => s,
            Primitive::Moving(m) => m.sphere_at(t),
        }
    }

    pub fn intersect(&self, ray: &Ray, min_scale: i64, max_scale: i64, cast_time: i64) -> (res: (
        bool,
        RayInfo,
    ))
        requires
            self.wf(),
            ray_wf(*ray),
            -(DS_LIMIT as int) <= min_scale <= DS_LIMIT as int,
            -(DS_LIMIT as int) <= max_scale <= DS_LIMIT as int,
            -(TIME_LIMIT as int) <= cast_time <= TIME_LIMIT as int,
        ensures
            ({
                let st = self.resolved(cast_time as int);
                &&& res.0 == st.hit_ds(*ray, min_scale as int, max_scale as int).is_some()
                &&& !res.0 ==> res.1 == RayInfo::empty_spec()
                &&& res.0 ==> res.1 == st.hit_record(*ray, min_scale as int, max_scale as int)
                &&& res.0 ==> min_scale <= res.1.ds <= max_scale
                &&& res.0 ==> res.1.normal.dot_raw(ray.direction) <= 0
                &&& res.1.normal.bounded(crate::fixed::SCALE as int)
                &&& res.1.normal.dot_raw(res.1.normal) >= 0x4000_0000
                &&& res.1.material.wf()
            }),
    {
        proof {
            crate::rayinfo::lemma_empty_normal_large();
        }
        match self {
            Primitive::Sphere(s) => s.intersect(ray, min_scale, max_scale, cast_time),
            Primitive::Moving(m) => m.intersect(ray, min_scale, max_scale, cast_time),
        }
    }
}

/// The renderable universe: primitives in insertion order.
pub struct WorldElement {
    pub objects: Vec<Primitive>,
}

impl WorldElement {
    pub open spec fn wf(self) -> bool {
        forall|i: int| 0 <= i < self.objects@.len() ==> (#[trigger] self.objects@[i]).wf()
    }

    /// The state of the linear scan after the first `n` primitives: whether
    /// any intersected, the closest contributing distance (initialized to
    /// `max_scale`, updated only on strict decrease), and the index whose
    /// record is held.
    pub open spec fn scan(
        objects: Seq<Primitive>,
        ray: Ray,
        min_scale: int,
        max_scale: int,
        t: int,
        n: int,
    ) -> (bool, int, Option<int>)
        decreases n,
    {
        if n <= 0 {
            (false, max_scale, None::<int>)
        } else {
            let prev = WorldElement::scan(objects, ray, min_scale, max_scale, t, n - 1);
            match objects[n - 1].resolved(t).hit_ds(ray, min_scale, max_scale) {
                None => prev,
                Some(ds) => (
                    true,
                    if ds < prev.1 {
                        ds
                    } else {
                        prev.1
                    },
                    if ds < prev.1 {
                        Some(n - 1)
                    } else {
                        prev.2
                    },
                ),
            }
        }
    }

    /// Nearest valid hit of the ray across the whole scene.
    pub fn intersect_all(&self, ray: &Ray, min_scale: i64, max_scale: i64, cast_time: i64) -> (res:
        (bool, RayInfo))
        requires
            self.wf(),
            ray_wf(*ray),
            -(DS_LIMIT as int) <= min_scale <= DS_LIMIT as int,
            -(DS_LIMIT as int) <= max_scale <= DS_LIMIT as int,
            -(TIME_LIMIT as int) <= cast_time <= TIME_LIMIT as int,
        ensures
            ({
                let sc = WorldElement::scan(
                    self.objects@,
                    *ray,
                    min_scale as int,
                    max_scale as int,
                    cast_time as int,
                    self.objects@.len() as int,
                );
                &&& res.0 == sc.0
                &&& res.0 == exists|j: int|
                    0 <= j < self.objects@.len() && (#[trigger] self.objects@[j].resolved(
                        cast_time as int,
                    ).hit_ds(*ray, min_scale as int, max_scale as int)).is_some()
                &&& match sc.2 {
                    Some(i) => {
                        &&& 0 <= i < self.objects@.len()
                        &&& self.objects@[i].resolved(cast_time as int).hit_ds(
                            *ray,
                            min_scale as int,
                            max_scale as int,
                        ) == Some(sc.1)
                        &&& res.1 == self.objects@[i].resolved(cast_time as int).hit_record(
                            *ray,
                            min_scale as int,
                            max_scale as int,
                        )
                        &&& res.1.ds == sc.1
                        &&& res.1.normal.dot_raw(ray.direction) <= 0
                        &&& forall|j: int|
                            0 <= j < self.objects@.len() ==> match #[trigger] self.objects@[j].resolved(
                                cast_time as int,
                            ).hit_ds(*ray, min_scale as int, max_scale as int) {
                                Some(d) => res.1.ds <= d,
                                None => true,
                            }
                    },
                    None => res.1 == RayInfo::empty_spec(),
                }
                &&& res.1.normal.bounded(crate::fixed::SCALE as int)
                &&& res.1.normal.dot_raw(res.1.normal) >= 0x4000_0000
                &&& res.1.material.wf()
            }),
    {
        proof {
            WorldElement::lemma_scan_is_nearest(
                self.objects@,
                *ray,
                min_scale as int,
                max_scale as int,
                cast_time as int,
                self.objects@.len() as int,
            );
        }
        proof {
            crate::rayinfo::lemma_empty_normal_large();
        }
        let mut ray_scale_closest: i64 = max_scale;
        let mut f_any_intersect: bool = false;
        let mut info: RayInfo = RayInfo::empty();
        let mut idx: usize = 0;
        while idx < self.objects.len()
            invariant
                self.wf(),
                ray_wf(*ray),
                -(DS_LIMIT as int) <= min_scale <= DS_LIMIT as int,
                -(DS_LIMIT as int) <= max_scale <= DS_LIMIT as int,
                -(TIME_LIMIT as int) <= cast_time <= TIME_LIMIT as int,
                0 <= idx <= self.objects@.len(),
                ({
                    let sc = WorldElement::scan(
                        self.objects@,
                        *ray,
                        min_scale as int,
                        max_scale as int,
                        cast_time as int,
                        idx as int,
                    );
                    &&& f_any_intersect == sc.0
                    &&& ray_scale_closest == sc.1
                    &&& match sc.2 {
                        Some(i) => {
                            &&& 0 <= i < idx
                            &&& self.objects@[i].resolved(cast_time as int).hit_ds(
                                *ray,
                                min_scale as int,
                                max_scale as int,
                            ) == Some(sc.1)
                            &&& info == self.objects@[i].resolved(cast_time as int).hit_record(
                                *ray,
                                min_scale as int,
                                max_scale as int,
                            )
                            &&& info.ds == sc.1
                            &&& info.normal.dot_raw(ray.direction) <= 0
                        },
                        None => info == RayInfo::empty_spec() && sc.1 == max_scale,
                    }
                    &&& info.normal.bounded(crate::fixed::SCALE as int)
                    &&& info.normal.dot_raw(info.normal) >= 0x4000_0000
                    &&& info.material.wf()
                }),
            decreases self.objects@.len() - idx,
        {
            let obj = &self.objects[idx];
            let (f_intersect, ray_info) = obj.intersect(ray, min_scale, max_scale, cast_time);
            if f_intersect {
                f_any_intersect = true;
                if ray_info.ds < ray_scale_closest {
                    ray_scale_closest = ray_info.ds;
                    info = ray_info;
                }
            }
            idx = idx + 1;
        }
        (f_any_intersect, info)
    }

    /// The scan reports an intersection exactly when some primitive
    /// intersects, and the distance it carries is a lower bound on every
    /// primitive's hit distance: the aggregator truly returns the nearest
    /// valid hit.
    pub proof fn lemma_scan_is_nearest(
        objects: Seq<Primitive>,
        ray: Ray,
        min_scale: int,
        max_scale: int,
        t: int,
        n: int,
    )
        requires
            0 <= n <= objects.len(),
        ensures
            ({
                let sc = WorldElement::scan(objects, ray, min_scale, max_scale, t, n);
                &&& sc.0 == exists|j: int|
                    0 <= j < n && (#[trigger] objects[j].resolved(t).hit_ds(
                        ray,
                        min_scale,
                        max_scale,
                    )).is_some()
                &&& sc.1 <= max_scale
                &&& forall|j: int|
                    0 <= j < n ==> match #[trigger] objects[j].resolved(t).hit_ds(
                        ray,
                        min_scale,
                        max_scale,
                    ) {
                        Some(d) => sc.1 <= d,
                        None => true,
                    }
            }),
        decreases n,
    {
        if n > 0 {
            WorldElement::lemma_scan_is_nearest(objects, ray, min_scale, max_scale, t, n - 1);
            let prev = WorldElement::scan(objects, ray, min_scale, max_scale, t, n - 1);
            match objects[n - 1].resolved(t).hit_ds(ray, min_scale, max_scale) {
                None => {
                    assert(WorldElement::scan(objects, ray, min_scale, max_scale, t, n) == prev);
                },
                Some(ds) => {},
            }
        }
    }

    /// Append a static sphere.
    pub fn add_sphere(&mut self, x: i64, y: i64, z: i64, r: i64, material: Material)
        requires
            old(self).wf(),
            -(GEO_LIMIT as int) <= x <= GEO_LIMIT as int,
            -(GEO_LIMIT as int) <= y <= GEO_LIMIT as int,
            -(GEO_LIMIT as int) <= z <= GEO_LIMIT as int,
            1 <= r <= GEO_LIMIT,
            material.wf(),
        ensures
            final(self).wf(),
            final(self).objects@ == old(self).objects@.push(
                Primitive::Sphere(WESphere { c: MyVec3 { x, y, z }, r, material }),
            ),
    {
        self.objects.push(Primitive::Sphere(WESphere { c: MyVec3 { x, y, z }, r, material }));
    }

    /// Append a moving sphere; the direction is normalized here, not by the
    /// caller.
    pub fn add_moving_sphere(
        &mut self,
        x: i64,
        y: i64,
        z: i64,
        r: i64,
        material: Material,
        speed: i64,
        direction: MyVec3,
    )
        requires
            old(self).wf(),
            -(GEO_LIMIT as int) / 2 <= x <= GEO_LIMIT as int / 2,
            -(GEO_LIMIT as int) / 2 <= y <= GEO_LIMIT as int / 2,
            -(GEO_LIMIT as int) / 2 <= z <= GEO_LIMIT as int / 2,
            1 <= r <= GEO_LIMIT,
            material.wf(),
            -(SPEED_LIMIT as int) <= speed <= SPEED_LIMIT as int,
            direction.bounded(crate::my_vec3::NORM_LIMIT as int),
            direction.dot_raw(direction) >= 1,
        ensures
            final(self).wf(),
            final(self).objects@ == old(self).objects@.push(
                Primitive::Moving(
                    WEMovingSphere {
                        sphere_zero: WESphere { c: MyVec3 { x, y, z }, r, material },
                        speed,
                        direction: MyVec3::unit_of(direction),
                    },
                ),
            ),
    {
        let moving_sphere = WEMovingSphere::new(
            WESphere { c: MyVec3 { x, y, z }, r, material },
            speed,
            direction,
        );
        self.objects.push(Primitive::Moving(moving_sphere));
    }
}

} // verus!
