//! Camera and viewport: the ray source.
//!
//! The camera's geometric derivation works from a caller-supplied
//! `tan(fov / 2)`; everything after that tangent — basis vectors, viewport
//! corner, ray generation with an optional thin lens — is fixed-point
//! arithmetic pinned to exact formulas. Degenerate bases (a zero chosen
//! direction, an up vector parallel to the view direction) fall back to a
//! fixed axis instead of failing.

use vstd::prelude::*;
use crate::common::{RandomSource, uniform_within_unit_circle};
use crate::fixed::{SCALE, fmul, lemma_div_const_range, lemma_prod_bound2, lemma_scaled_bound};
use crate::my_vec3::{MyVec3, NORM_LIMIT, safe_unit, spec_safe_unit};
use crate::ray::Ray;
use crate::world_sphere::{GEO_LIMIT, TIME_LIMIT, ray_wf};

verus! {

/// Largest coordinate magnitude of a camera location or target.
pub const CAM_LIMIT: i64 = 0x1000_0000;

/// Largest viewport coordinate `generate_ray` accepts.
pub const VIEW_LIMIT: i64 = 0x2_0000_0000_0000;

#[derive(Clone, Copy, PartialEq, Eq, Structural, Debug)]
pub enum CameraError {
    /// Both an explicit direction and a target were supplied.
    BothDirectionAndTarget,
    /// Neither a direction nor a target was supplied.
    NeitherDirectionNorTarget,
}

/// Component-wise difference, as a spec-level vector.
pub open spec fn vsub(a: MyVec3, b: MyVec3) -> MyVec3 {
    MyVec3 { x: (a.x - b.x) as i64, y: (a.y - b.y) as i64, z: (a.z - b.z) as i64 }
}

/// Component-wise negation, as a spec-level vector.
pub open spec fn vneg(v: MyVec3) -> MyVec3 {
    MyVec3 { x: (-v.x) as i64, y: (-v.y) as i64, z: (-v.z) as i64 }
}

/// Fixed-point cross product, as a spec-level vector.
pub open spec fn spec_cross(a: MyVec3, b: MyVec3) -> MyVec3 {
    MyVec3 {
        x: ((a.y * b.z - a.z * b.y) / (SCALE as int)) as i64,
        y: ((a.z * b.x - a.x * b.z) / (SCALE as int)) as i64,
        z: ((a.x * b.y - a.y * b.x) / (SCALE as int)) as i64,
    }
}

/// The cross product of two unit-bounded vectors stays within the
/// normalization domain.
proof fn lemma_cross_bound(a: MyVec3, b: MyVec3, c: MyVec3)
    requires
        a.bounded(SCALE as int),
        b.bounded(SCALE as int),
        c.x == (a.y * b.z - a.z * b.y) / (SCALE as int),
        c.y == (a.z * b.x - a.x * b.z) / (SCALE as int),
        c.z == (a.x * b.y - a.y * b.x) / (SCALE as int),
    ensures
        c.bounded(NORM_LIMIT as int),
{
    crate::fixed::lemma_prod_bound(a.y as int, b.z as int, SCALE as int);
    crate::fixed::lemma_prod_bound(a.z as int, b.y as int, SCALE as int);
    crate::fixed::lemma_prod_bound(a.z as int, b.x as int, SCALE as int);
    crate::fixed::lemma_prod_bound(a.x as int, b.z as int, SCALE as int);
    crate::fixed::lemma_prod_bound(a.x as int, b.y as int, SCALE as int);
    crate::fixed::lemma_prod_bound(a.y as int, b.x as int, SCALE as int);
    crate::fixed::lemma_div_range(a.y * b.z - a.z * b.y, SCALE as int);
    crate::fixed::lemma_div_range(a.z * b.x - a.x * b.z, SCALE as int);
    crate::fixed::lemma_div_range(a.x * b.y - a.y * b.x, SCALE as int);
}

#[derive(Clone, Copy, PartialEq, Eq, Structural, Debug)]
pub struct Viewport {
    pub distance: i64,
    pub width: i64,
    pub height: i64,
    pub up: MyVec3,
    pub horizontal_vector: MyVec3,
    pub vertical_vector: MyVec3,
    pub reference_corner: MyVec3,
}

impl Viewport {
    /// The upper-left viewport corner:
    /// `location + distance * direction - (width / 2) * horizontal
    ///  + (height / 2) * vertical`.
    pub open spec fn corner_of(
        distance: int,
        width: int,
        height: int,
        horizontal_vector: MyVec3,
        vertical_vector: MyVec3,
        camera_location: MyVec3,
        camera_direction: MyVec3,
    ) -> MyVec3 {
        let w2 = width / 2;
        let h2 = height / 2;
        MyVec3 {
            x: (camera_location.x + distance * camera_direction.x / (SCALE as int) + (-w2)
                * horizontal_vector.x / (SCALE as int) + h2 * vertical_vector.x / (
            SCALE as int)) as i64,
            y: (camera_location.y + distance * camera_direction.y / (SCALE as int) + (-w2)
                * horizontal_vector.y / (SCALE as int) + h2 * vertical_vector.y / (
            SCALE as int)) as i64,
            z: (camera_location.z + distance * camera_direction.z / (SCALE as int) + (-w2)
                * horizontal_vector.z / (SCALE as int) + h2 * vertical_vector.z / (
            SCALE as int)) as i64,
        }
    }

    pub fn new(
        distance: i64,
        height: i64,
        width: i64,
        up: MyVec3,
        horizontal_vector: MyVec3,
        vertical_vector: MyVec3,
        camera_location: MyVec3,
        camera_direction: MyVec3,
    ) -> (v: Viewport)
        requires
            -(GEO_LIMIT as int) / 64 <= distance <= GEO_LIMIT as int / 64,
            0 <= height <= GEO_LIMIT as int / 8,
            0 <= width <= GEO_LIMIT as int,
            up.bounded(SCALE as int),
            horizontal_vector.bounded(SCALE as int),
            vertical_vector.bounded(SCALE as int),
            camera_location.bounded(CAM_LIMIT as int),
            camera_direction.bounded(SCALE as int),
        ensures
            v.distance == distance,
            v.width == width,
            v.height == height,
            v.up == up,
            v.horizontal_vector == horizontal_vector,
            v.vertical_vector == vertical_vector,
            v.reference_corner == Viewport::corner_of(
                distance as int,
                width as int,
                height as int,
                horizontal_vector,
                vertical_vector,
                camera_location,
                camera_direction,
            ),
            v.reference_corner.bounded(GEO_LIMIT as int),
    {
        let w2: i64 = (width as u64 / 2) as i64;
        let h2: i64 = (height as u64 / 2) as i64;
        proof {
            lemma_scaled_bound(distance as int, camera_direction.x as int, GEO_LIMIT as int / 64);
            lemma_scaled_bound(distance as int, camera_direction.y as int, GEO_LIMIT as int / 64);
            lemma_scaled_bound(distance as int, camera_direction.z as int, GEO_LIMIT as int / 64);
            lemma_scaled_bound((-w2) as int, horizontal_vector.x as int, GEO_LIMIT as int / 2);
            lemma_scaled_bound((-w2) as int, horizontal_vector.y as int, GEO_LIMIT as int / 2);
            lemma_scaled_bound((-w2) as int, horizontal_vector.z as int, GEO_LIMIT as int / 2);
            lemma_scaled_bound(h2 as int, vertical_vector.x as int, GEO_LIMIT as int / 16);
            lemma_scaled_bound(h2 as int, vertical_vector.y as int, GEO_LIMIT as int / 16);
            lemma_scaled_bound(h2 as int, vertical_vector.z as int, GEO_LIMIT as int / 16);
        }
        let dstep: MyVec3 = camera_direction.scale(distance);
        let hstep: MyVec3 = horizontal_vector.scale(-w2);
        let vstep: MyVec3 = vertical_vector.scale(h2);
        let reference_corner = MyVec3 {
            x: camera_location.x + dstep.x + hstep.x + vstep.x,
            y: camera_location.y + dstep.y + hstep.y + vstep.y,
            z: camera_location.z + dstep.z + hstep.z + vstep.z,
        };
        Viewport { distance, width, height, up, horizontal_vector, vertical_vector, reference_corner }
    }
}

#[derive(Clone, Copy, PartialEq, Eq, Structural, Debug)]
pub struct Camera {
    pub location: MyVec3,
    pub direction: MyVec3,
    pub aspect_ratio: i64,
    pub focus_distance: Option<i64>,
    pub lens_radius: Option<i64>,
    pub exposure_length: Option<i64>,
    pub viewport: Viewport,
}

impl Camera {
    pub open spec fn wf(self) -> bool {
        &&& self.location.bounded(CAM_LIMIT as int)
        &&& self.direction.bounded(SCALE as int)
        &&& self.viewport.horizontal_vector.bounded(SCALE as int)
        &&& self.viewport.vertical_vector.bounded(SCALE as int)
        &&& self.viewport.reference_corner.bounded(GEO_LIMIT as int)
        &&& 0 <= self.viewport.width <= GEO_LIMIT
        &&& 0 <= self.viewport.height <= GEO_LIMIT
        &&& match self.lens_radius {
            Some(l) => 0 <= l <= 16 * SCALE,
            None => true,
        }
        &&& match self.exposure_length {
            Some(e) => 0 <= e <= TIME_LIMIT,
            None => true,
        }
    }

    /// The view direction the configuration names: the explicit direction,
    /// or the vector from the location to the target.
    pub open spec fn orientation_of(
        location: MyVec3,
        camera_direction: Option<MyVec3>,
        camera_target: Option<MyVec3>,
    ) -> MyVec3 {
        match (camera_direction, camera_target) {
            (Some(d), None) => d,
            (None, Some(t)) => vsub(t, location),
            _ => MyVec3 { x: 0, y: 0, z: SCALE },
        }
    }

    /// Construct a camera. Exactly one of `camera_direction` and
    /// `camera_target` must be supplied; `vertical_tan` is `tan(fov / 2)` in
    /// fixed point, supplied by the caller.
    pub fn new(
        location: MyVec3,
        camera_direction: Option<MyVec3>,
        camera_target: Option<MyVec3>,
        camera_up: Option<MyVec3>,
        focus_distance: Option<i64>,
        aperture: Option<i64>,
        exposure_length: Option<i64>,
        aspect_ratio: i64,
        vertical_tan: i64,
    ) -> (res: Result<Camera, CameraError>)
        requires
            location.bounded(CAM_LIMIT as int),
            match camera_direction {
                Some(d) => d.bounded(NORM_LIMIT as int),
                None => true,
            },
            match camera_target {
                Some(t) => t.bounded(CAM_LIMIT as int),
                None => true,
            },
            match camera_up {
                Some(u) => u.bounded(NORM_LIMIT as int),
                None => true,
            },
            match focus_distance {
                Some(f) => -(GEO_LIMIT as int) / 64 <= f <= GEO_LIMIT as int / 64,
                None => true,
            },
            match aperture {
                Some(a) => 0 <= a <= 32 * SCALE,
                None => true,
            },
            match exposure_length {
                Some(e) => 0 <= e <= TIME_LIMIT,
                None => true,
            },
            0 <= aspect_ratio <= 8 * SCALE,
            0 <= vertical_tan <= 4 * SCALE,
        ensures
            res is Err <==> (camera_direction is Some && camera_target is Some) || (
            camera_direction is None && camera_target is None),
            (camera_direction is Some && camera_target is Some) ==> res == Result::<
                Camera,
                CameraError,
            >::Err(CameraError::BothDirectionAndTarget),
            (camera_direction is None && camera_target is None) ==> res == Result::<
                Camera,
                CameraError,
            >::Err(CameraError::NeitherDirectionNorTarget),
            res matches Ok(cam) ==> ({
                let up_n = spec_safe_unit(
                    match camera_up {
                        Some(u) => u,
                        None => MyVec3 { x: 0, y: SCALE, z: 0 },
                    },
                );
                let dir_n = spec_safe_unit(
                    Camera::orientation_of(location, camera_direction, camera_target),
                );
                let h_n = spec_safe_unit(spec_cross(up_n, vneg(dir_n)));
                let v_n = spec_safe_unit(spec_cross(vneg(dir_n), h_n));
                let vdist = match focus_distance {
                    Some(f) => f as int,
                    None => SCALE as int,
                };
                let vdist_abs = if vdist >= 0 {
                    vdist
                } else {
                    -vdist
                };
                let vheight = 2 * (vdist_abs * vertical_tan / (SCALE as int));
                &&& cam.location == location
                &&& cam.direction == dir_n
                &&& cam.aspect_ratio == aspect_ratio
                &&& cam.focus_distance == focus_distance
                &&& cam.exposure_length == exposure_length
                &&& cam.lens_radius == match aperture {
                    Some(a) => Some((a / 2) as i64),
                    None => None::<i64>,
                }
                &&& cam.viewport.up == up_n
                &&& cam.viewport.horizontal_vector == h_n
                &&& cam.viewport.vertical_vector == v_n
                &&& cam.viewport.distance == vdist
                &&& cam.viewport.height == vheight
                &&& cam.viewport.width == aspect_ratio * vheight / (SCALE as int)
                &&& cam.viewport.reference_corner == Viewport::corner_of(
                    vdist,
                    aspect_ratio * vheight / (SCALE as int),
                    vheight,
                    h_n,
                    v_n,
                    location,
                    dir_n,
                )
                &&& cam.wf()
            }),
    {
        let up_input: MyVec3 = match camera_up {
            Some(u) => u,
            None => MyVec3 { x: 0, y: SCALE, z: 0 },
        };
        let up_n: MyVec3 = safe_unit(up_input);
        let viewport_distance: i64 = match focus_distance {
            Some(f) => f,
            None => SCALE,
        };
        let oriented: MyVec3 = match (camera_direction, camera_target) {
            (Some(d), None) => d,
            (None, Some(t)) => t.sub(location),
            (Some(_), Some(_)) => {
                return Err(CameraError::BothDirectionAndTarget);
            },
            (None, None) => {
                return Err(CameraError::NeitherDirectionNorTarget);
            },
        };
        let direction: MyVec3 = safe_unit(oriented);
        let lens_radius: Option<i64> = match aperture {
            None => None,
            Some(aperture) => Some((aperture as u64 / 2) as i64),
        };
        let ndir: MyVec3 = direction.neg();
        let cross_h: MyVec3 = up_n.cross(ndir);
        proof {
            lemma_cross_bound(up_n, ndir, cross_h);
        }
        let horizontal_vector: MyVec3 = safe_unit(cross_h);
        let cross_v: MyVec3 = ndir.cross(horizontal_vector);
        proof {
            lemma_cross_bound(ndir, horizontal_vector, cross_v);
        }
        let vertical_vector: MyVec3 = safe_unit(cross_v);
        let vdist_abs: i64 = if viewport_distance >= 0 {
            viewport_distance
        } else {
            -viewport_distance
        };
        proof {
            lemma_prod_bound2(
                vdist_abs as int,
                vertical_tan as int,
                GEO_LIMIT as int / 64,
                4 * SCALE as int,
            );
            lemma_div_const_range(
                vdist_abs * (vertical_tan as int),
                GEO_LIMIT as int / 16,
                SCALE as int,
            );
            vstd::arithmetic::div_mod::lemma_div_pos_is_pos(
                vdist_abs * (vertical_tan as int),
                SCALE as int,
            );
        }
        let viewport_height: i64 = 2 * fmul(vdist_abs, vertical_tan);
        proof {
            lemma_prod_bound2(
                aspect_ratio as int,
                viewport_height as int,
                8 * SCALE as int,
                GEO_LIMIT as int / 8,
            );
            lemma_div_const_range(
                (aspect_ratio as int) * (viewport_height as int),
                GEO_LIMIT as int,
                SCALE as int,
            );
            vstd::arithmetic::div_mod::lemma_div_pos_is_pos(
                (aspect_ratio as int) * (viewport_height as int),
                SCALE as int,
            );
        }
        let viewport_width: i64 = fmul(aspect_ratio, viewport_height);
        let viewport: Viewport = Viewport::new(
            viewport_distance,
            viewport_height,
            viewport_width,
            up_n,
            horizontal_vector,
            vertical_vector,
            location,
            direction,
        );
        Ok(
            Camera {
                aspect_ratio,
                location,
                direction,
                focus_distance,
                lens_radius,
                exposure_length,
                viewport,
            },
        )
    }

    /// Cast a ray toward a viewport coordinate: a pinhole ray from the
    /// location, or, with a lens radius configured, from an origin jittered
    /// within the lens disk. The direction is normalized.
    pub fn generate_ray(&self, viewport_coord: MyVec3, cast_time: i64, rng: &mut RandomSource) -> (
        r: Ray)
        requires
            self.wf(),
            viewport_coord.bounded(VIEW_LIMIT as int),
            -(TIME_LIMIT as int) <= cast_time <= TIME_LIMIT as int,
        ensures
            ray_wf(r),
            r.cast_time == cast_time,
            r.p.bounded(GEO_LIMIT as int),
            r.direction.bounded(SCALE as int),
            self.lens_radius is None ==> r.p == self.location && r.direction
                == spec_safe_unit(vsub(viewport_coord, self.location)),
            self.lens_radius is Some ==> exists|s: MyVec3|
                s.bounded(SCALE as int) && s.z == 0 && s.dot_raw(s) < (SCALE as int) * (
                SCALE as int) && r == #[trigger] Camera::lens_ray_spec(
                    *self,
                    viewport_coord,
                    cast_time,
                    s,
                ),
    {
        match self.lens_radius {
            None => {
                let direction: MyVec3 = safe_unit(viewport_coord.sub(self.location));
                Ray { p: self.location, direction, cast_time }
            },
            Some(lens_radius) => {
                let sample: MyVec3 = uniform_within_unit_circle(rng);
                let r: Ray = self.lens_ray(viewport_coord, cast_time, lens_radius, sample);
                proof {
                    assert(sample.bounded(SCALE as int) && sample.z == 0 && sample.dot_raw(sample)
                        < (SCALE as int) * (SCALE as int) && r == Camera::lens_ray_spec(
                        *self,
                        viewport_coord,
                        cast_time,
                        sample,
                    ));
                }
                r
            },
        }
    }

    /// The lens ray for a given disk sample: the origin is offset within the
    /// lens disk along the viewport basis, and the direction aims at the
    /// viewport coordinate.
    pub open spec fn lens_ray_spec(
        cam: Camera,
        viewport_coord: MyVec3,
        cast_time: i64,
        sample: MyVec3,
    ) -> Ray {
        let lr = cam.lens_radius.unwrap();
        let ox = (lr * sample.x / (SCALE as int)) as i64;
        let oy = (lr * sample.y / (SCALE as int)) as i64;
        let origin = MyVec3 {
            x: (cam.location.x + ox * cam.viewport.horizontal_vector.x / (SCALE as int) + oy
                * cam.viewport.vertical_vector.x / (SCALE as int)) as i64,
            y: (cam.location.y + ox * cam.viewport.horizontal_vector.y / (SCALE as int) + oy
                * cam.viewport.vertical_vector.y / (SCALE as int)) as i64,
            z: (cam.location.z + ox * cam.viewport.horizontal_vector.z / (SCALE as int) + oy
                * cam.viewport.vertical_vector.z / (SCALE as int)) as i64,
        };
        Ray {
            p: origin,
            direction: spec_safe_unit(vsub(viewport_coord, origin)),
            cast_time,
        }
    }

    fn lens_ray(&self, viewport_coord: MyVec3, cast_time: i64, lens_radius: i64, sample: MyVec3)
        -> (r: Ray)
        requires
            self.wf(),
            self.lens_radius == Some(lens_radius),
            viewport_coord.bounded(VIEW_LIMIT as int),
            -(TIME_LIMIT as int) <= cast_time <= TIME_LIMIT as int,
            sample.bounded(SCALE as int),
        ensures
            r == Camera::lens_ray_spec(*self, viewport_coord, cast_time, sample),
            ray_wf(r),
            r.p.bounded(GEO_LIMIT as int),
            r.direction.bounded(SCALE as int),
    {
        proof {
            lemma_scaled_bound(lens_radius as int, sample.x as int, 16 * SCALE as int);
            lemma_scaled_bound(lens_radius as int, sample.y as int, 16 * SCALE as int);
        }
        let ox: i64 = fmul(lens_radius, sample.x);
        let oy: i64 = fmul(lens_radius, sample.y);
        proof {
            lemma_scaled_bound(ox as int, self.viewport.horizontal_vector.x as int,
                16 * SCALE as int);
            lemma_scaled_bound(ox as int, self.viewport.horizontal_vector.y as int,
                16 * SCALE as int);
            lemma_scaled_bound(ox as int, self.viewport.horizontal_vector.z as int,
                16 * SCALE as int);
            lemma_scaled_bound(oy as int, self.viewport.vertical_vector.x as int,
                16 * SCALE as int);
            lemma_scaled_bound(oy as int, self.viewport.vertical_vector.y as int,
                16 * SCALE as int);
            lemma_scaled_bound(oy as int, self.viewport.vertical_vector.z as int,
                16 * SCALE as int);
        }
        let hstep: MyVec3 = self.viewport.horizontal_vector.scale(ox);
        let vstep: MyVec3 = self.viewport.vertical_vector.scale(oy);
        let origin = MyVec3 {
            x: self.location.x + hstep.x + vstep.x,
            y: self.location.y + hstep.y + vstep.y,
            z: self.location.z + hstep.z + vstep.z,
        };
        let direction: MyVec3 = safe_unit(viewport_coord.sub(origin));
        Ray { p: origin, direction, cast_time }
    }
}

} // verus!
