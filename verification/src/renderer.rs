//! The tiled Monte Carlo renderer.
//!
//! The image is partitioned into contiguous row ranges (one per worker); each
//! range is rendered by a per-pixel sampling loop that casts a camera ray,
//! follows it through at most `max_ray_bounce_depth + 1` bounces, accumulates
//! the attenuated sky radiance, and quantizes the gamma-corrected mean to
//! bytes. The partition is proved to cover the image exactly with non-empty
//! ranges, and the output buffer's length is pinned to
//! `width * height * channels`.

use vstd::prelude::*;
use crate::camera::Camera;
use crate::common::{RandomSource, source_from_seed, uniform_random};
use crate::fixed::{
    SCALE, div_floor, fmul, fsqrt, lemma_div_const_range, lemma_div_range, lemma_prod_bound,
    lemma_prod_bound2, lemma_scaled_bound,
};
use crate::my_vec3::{COORD_LIMIT, MyVec3, safe_unit};
use crate::ray::Ray;
use crate::scatter::{SCATTER_LIMIT, scatter};
use crate::world_element::WorldElement;
use crate::world_sphere::{GEO_LIMIT, TIME_LIMIT, ray_wf};

verus! {

/// Distance below which an intersection is ignored, guarding re-hits of the
/// surface a bounce starts on (about one thousandth of a unit).
pub const MIN_TRACE_DIST: i64 = 66;

/// Distance beyond any scene geometry, standing in for an unbounded trace.
pub const MAX_TRACE_DIST: i64 = 0x1000_0000;

/// Blue sky channels: (0.5, 0.7, 1.0) in fixed point.
pub const SKY_RED: i64 = 32768;

pub const SKY_GREEN: i64 = 45875;

pub const SKY_BLUE: i64 = 65536;

/// Clamp ceiling for a gamma-corrected channel: just under one, so that
/// quantization stays below 256.
pub const CHANNEL_CLAMP: i64 = 65480;

/// A contiguous range of image rows owned by one worker.
#[derive(Clone, Copy, PartialEq, Eq, Structural, Debug)]
pub struct RenderScope {
    pub begin_line: u32,
    pub number_of_lines: u32,
}

pub struct Renderer {
    pub image_width: u32,
    pub image_height: u32,
    pub colour_channels: u32,
    pub samples_per_pixel: u32,
    pub max_ray_bounce_depth: u32,
    pub camera: Camera,
    pub world_element: WorldElement,
}

impl Renderer {
    pub open spec fn wf(self) -> bool {
        &&& 1 <= self.image_width <= 0x1000
        &&& 1 <= self.image_height <= 0x1000
        &&& self.colour_channels == 3
        &&& 1 <= self.samples_per_pixel <= 2000
        &&& 1 <= self.max_ray_bounce_depth <= 64
        &&& self.camera.wf()
        &&& self.world_element.wf()
    }

    pub fn new(
        image_width: u32,
        image_height: u32,
        colour_channels: u32,
        samples_per_pixel: u32,
        max_ray_bounce_depth: u32,
        camera: Camera,
        world_element: WorldElement,
    ) -> (r: Renderer)
        requires
            1 <= image_width <= 0x1000,
            1 <= image_height <= 0x1000,
            colour_channels == 3,
            1 <= samples_per_pixel <= 2000,
            1 <= max_ray_bounce_depth <= 64,
            camera.wf(),
            world_element.wf(),
        ensures
            r.image_width == image_width,
            r.image_height == image_height,
            r.colour_channels == colour_channels,
            r.samples_per_pixel == samples_per_pixel,
            r.max_ray_bounce_depth == max_ray_bounce_depth,
            r.camera == camera,
            r.world_element == world_element,
            r.wf(),
    {
        Renderer {
            image_width,
            image_height,
            colour_channels,
            samples_per_pixel,
            max_ray_bounce_depth,
            camera,
            world_element,
        }
    }
}

/// Compare a small product against a threshold without overflow.
fn times_ge(a: u32, b: u32, c: u32) -> (r: bool)
    requires
        a <= 0x1000,
        b <= 0x1000,
    ensures
        r == (a * b >= c),
{
    proof {
        assert(a * b <= 0x100_0000) by (nonlinear_arith)
            requires a <= 0x1000 && b <= 0x1000;
    }
    a * b >= c
}

/// The ceiling quotient of an image height by a worker count lies between
/// one and the height.
proof fn lemma_ceil_div_range(h: int, n: int)
    requires
        1 <= h <= 0x1000,
        1 <= n,
    ensures
        1 <= (h + n - 1) / n <= 0x1000,
{
    vstd::arithmetic::div_mod::lemma_div_non_zero(h + n - 1, n);
    assert(h + n - 1 <= 0x1000 * n) by (nonlinear_arith)
        requires 1 <= h <= 0x1000 && 1 <= n;
    crate::fixed::lemma_div_const_range(h + n - 1, 0x1000, n);
}

/// The scopes form a partition of the image rows: they start at row zero,
/// are contiguous and non-empty, and end exactly at `height`.
pub open spec fn scopes_partition(scopes: Seq<RenderScope>, height: int) -> bool {
    &&& scopes.len() >= 1
    &&& scopes[0].begin_line == 0
    &&& forall|i: int|
        0 <= i < scopes.len() ==> (#[trigger] scopes[i]).number_of_lines >= 1
    &&& forall|i: int|
        0 < i < scopes.len() ==> (#[trigger] scopes[i]).begin_line == scopes[i - 1].begin_line
            + scopes[i - 1].number_of_lines
    &&& scopes[scopes.len() - 1].begin_line + scopes[scopes.len() - 1].number_of_lines == height
}

/// Partition the image rows into one contiguous range per worker. The row
/// count per range is the ceiling of `height / threads`; the thread count is
/// reduced until no range would be empty, and the last range absorbs the
/// remainder.
pub fn compute_scopes(image_height: u32, target_number_of_threads: u32) -> (scopes: Vec<
    RenderScope,
>)
    requires
        1 <= image_height <= 0x1000,
        1 <= target_number_of_threads <= 0x1000,
    ensures
        scopes_partition(scopes@, image_height as int),
        scopes@.len() <= target_number_of_threads,
        forall|i: int|
            0 <= i < scopes@.len() - 1 ==> (#[trigger] scopes@[i]).number_of_lines
                == scopes@[0].number_of_lines,
{
    let mut number_of_threads: u32 = target_number_of_threads;
    proof {
        lemma_ceil_div_range(image_height as int, target_number_of_threads as int);
    }
    let mut lines_per_thread: u32 = (image_height + number_of_threads - 1) / number_of_threads;
    while number_of_threads > 1 && times_ge(lines_per_thread, number_of_threads - 1, image_height)
        invariant
            1 <= number_of_threads <= target_number_of_threads,
            target_number_of_threads <= 0x1000,
            1 <= image_height <= 0x1000,
            lines_per_thread == (image_height + number_of_threads - 1) / (
            number_of_threads as int),
            1 <= lines_per_thread <= 0x1000,
        decreases number_of_threads,
    {
        number_of_threads = number_of_threads - 1;
        proof {
            lemma_ceil_div_range(image_height as int, number_of_threads as int);
        }
        lines_per_thread = (image_height + number_of_threads - 1) / number_of_threads;
    }
    proof {
        if number_of_threads > 1 {
            assert(lines_per_thread * (number_of_threads - 1) < image_height);
        } else {
            assert(lines_per_thread * (number_of_threads - 1) == 0) by (nonlinear_arith)
                requires number_of_threads == 1;
        }
    }
    let mut scopes: Vec<RenderScope> = Vec::new();
    let mut begin_line: u32 = 0;
    let mut k: u32 = 0;
    while k + 1 < number_of_threads
        invariant
            k < number_of_threads,
            number_of_threads <= 0x1000,
            lines_per_thread >= 1,
            lines_per_thread <= 0x1000,
            begin_line == k * lines_per_thread,
            lines_per_thread * (number_of_threads - 1) < image_height,
            image_height <= 0x1000,
            scopes@.len() == k,
            k >= 1 ==> scopes@[0].begin_line == 0,
            forall|i: int|
                0 <= i < k ==> (#[trigger] scopes@[i]).begin_line == i * lines_per_thread
                    && scopes@[i].number_of_lines == lines_per_thread,
        decreases number_of_threads - k,
    {
        proof {
            assert((k + 1) * lines_per_thread < image_height && (k + 1) * lines_per_thread == k
                * lines_per_thread + lines_per_thread) by (nonlinear_arith)
                requires
                    k + 1 <= number_of_threads - 1 && lines_per_thread >= 1 && lines_per_thread
                        * (number_of_threads - 1) < image_height;
        }
        scopes.push(RenderScope { begin_line, number_of_lines: lines_per_thread });
        begin_line = begin_line + lines_per_thread;
        k = k + 1;
    }
    proof {
        assert(k * lines_per_thread < image_height) by (nonlinear_arith)
            requires
                0 <= k <= number_of_threads - 1 && lines_per_thread >= 1 && lines_per_thread * (
                number_of_threads - 1) < image_height;
    }
    scopes.push(RenderScope { begin_line, number_of_lines: image_height - begin_line });
    proof {
        assert(0 * (lines_per_thread as int) == 0) by (nonlinear_arith);
        assert forall|i: int|
            0 < i < scopes@.len() implies (#[trigger] scopes@[i]).begin_line == scopes@[i
            - 1].begin_line + scopes@[i - 1].number_of_lines by {
            assert(i * (lines_per_thread as int) == (i - 1) * (lines_per_thread as int)
                + lines_per_thread) by (nonlinear_arith);
        }
    }
    scopes
}

/// The sky gradient sampled by rays that leave the scene: a linear blend from
/// white to sky blue by the unit direction's upward component.
pub open spec fn spec_sky_colour(direction: MyVec3) -> MyVec3 {
    let u = crate::my_vec3::spec_safe_unit(direction);
    let t = (u.y + SCALE) / 2;
    MyVec3 {
        x: ((SCALE - t) + t * SKY_RED / (SCALE as int)) as i64,
        y: ((SCALE - t) + t * SKY_GREEN / (SCALE as int)) as i64,
        z: ((SCALE - t) + t * SKY_BLUE / (SCALE as int)) as i64,
    }
}

/// Evaluate the sky gradient for a ray direction. Blue always saturates;
/// red and green never fall below their half-blend floors.
pub fn sky_colour(direction: MyVec3) -> (c: MyVec3)
    requires
        direction.bounded(COORD_LIMIT as int),
    ensures
        c == spec_sky_colour(direction),
        32768 <= c.x <= SCALE,
        32768 <= c.y <= SCALE,
        c.z == SCALE,
{
    let u: MyVec3 = safe_unit(direction);
    let t: i64 = ((u.y + SCALE) as u64 / 2) as i64;
    proof {
        lemma_prod_bound2(t as int, SKY_RED as int, SCALE as int, SCALE as int);
        lemma_prod_bound2(t as int, SKY_GREEN as int, SCALE as int, SCALE as int);
        lemma_prod_bound2(t as int, SKY_BLUE as int, SCALE as int, SCALE as int);
        lemma_div_const_range(t * (SKY_RED as int), SCALE as int, SCALE as int);
        lemma_div_const_range(t * (SKY_GREEN as int), SCALE as int, SCALE as int);
        lemma_div_const_range(t * (SKY_BLUE as int), SCALE as int, SCALE as int);
        assert(t * (SKY_RED as int) >= 0 && t * (SKY_GREEN as int) >= 0 && t * (SKY_BLUE as int)
            >= 0) by (nonlinear_arith)
            requires t >= 0;
        lemma_div_range(t * (SKY_RED as int), SCALE as int);
        lemma_div_range(t * (SKY_GREEN as int), SCALE as int);
        lemma_div_range(t * (SKY_BLUE as int), SCALE as int);
    }
    let cx: i64 = (SCALE - t) + fmul(t, SKY_RED);
    let cy: i64 = (SCALE - t) + fmul(t, SKY_GREEN);
    let cz: i64 = (SCALE - t) + fmul(t, SKY_BLUE);
    proof {
        lemma_scaled_bound(t as int, SKY_RED as int, t as int);
        lemma_scaled_bound(t as int, SKY_GREEN as int, t as int);
        lemma_scaled_bound(t as int, SKY_BLUE as int, t as int);
        // Blue: t * SCALE / SCALE == t, so the channel is exactly SCALE.
        assert(t * (SKY_BLUE as int) == (SCALE as int) * (t as int)) by (nonlinear_arith)
            requires SKY_BLUE == 65536 && SCALE == 65536;
        vstd::arithmetic::div_mod::lemma_div_multiples_vanish(t as int, SCALE as int);
        // Red and green floors: floor(t * w / SCALE) >= (t * w - SCALE + 1) / SCALE.
        vstd::arithmetic::div_mod::lemma_fundamental_div_mod(t * (SKY_RED as int), SCALE as int);
        vstd::arithmetic::div_mod::lemma_mod_bound(t * (SKY_RED as int), SCALE as int);
        vstd::arithmetic::div_mod::lemma_fundamental_div_mod(t * (SKY_GREEN as int), SCALE as int);
        vstd::arithmetic::div_mod::lemma_mod_bound(t * (SKY_GREEN as int), SCALE as int);
    }
    MyVec3 { x: cx, y: cy, z: cz }
}

/// A sky radiance filtered by a per-channel gain: what one traced sample
/// contributes to its pixel.
pub open spec fn spec_filtered_sky(att: MyVec3, dir: MyVec3) -> MyVec3 {
    let sky = spec_sky_colour(dir);
    MyVec3 {
        x: (att.x * sky.x / (SCALE as int)) as i64,
        y: (att.y * sky.y / (SCALE as int)) as i64,
        z: (att.z * sky.z / (SCALE as int)) as i64,
    }
}

/// Whether the start ray misses every primitive of the scene within the
/// trace interval; with no randomness involved, a missed first ray pins the
/// whole sample to the sky gradient.
pub open spec fn start_misses_scene(rdr: Renderer, start: Ray) -> bool {
    !WorldElement::scan(
        rdr.world_element.objects@,
        start,
        MIN_TRACE_DIST as int,
        MAX_TRACE_DIST as int,
        start.cast_time as int,
        rdr.world_element.objects@.len() as int,
    ).0
}

/// Follow one sample ray through the scene for at most
/// `max_ray_bounce_depth + 1` bounces and return its radiance: the sky
/// gradient of the final direction, filtered by the accumulated gain. When
/// the first ray already misses the scene (in particular over an empty
/// scene), the result is exactly the sky gradient of the start direction,
/// whatever the random stream holds.
pub fn trace_ray(rdr: &Renderer, start: Ray, rng: &mut RandomSource) -> (c: MyVec3)
    requires
        rdr.wf(),
        ray_wf(start),
        start.p.bounded(GEO_LIMIT as int),
        start.direction.bounded(SCALE as int),
    ensures
        0 <= c.x <= SCALE,
        0 <= c.y <= SCALE,
        0 <= c.z <= SCALE,
        start_misses_scene(*rdr, start) ==> c == spec_sky_colour(start.direction) && 32768 <= c.x
            && 32768 <= c.y && c.z == SCALE,
        rdr.world_element.objects@.len() == 0 ==> c == spec_sky_colour(start.direction),
        exists|att: MyVec3, dir: MyVec3|
            0 <= att.x <= SCALE && 0 <= att.y <= SCALE && 0 <= att.z <= SCALE && dir.bounded(
                SCALE as int,
            ) && c == #[trigger] spec_filtered_sky(att, dir),
{
    let mut r: Ray = start;
    let mut total_attenuation = MyVec3 { x: SCALE, y: SCALE, z: SCALE };
    let mut ray_bounce: u32 = 0;
    while ray_bounce <= rdr.max_ray_bounce_depth
        invariant
            rdr.wf(),
            ray_wf(r),
            r.direction.bounded(SCALE as int),
            ray_bounce <= rdr.max_ray_bounce_depth + 1,
            r.p.bounded(GEO_LIMIT as int + ray_bounce * MAX_TRACE_DIST),
            0 <= total_attenuation.x <= SCALE,
            0 <= total_attenuation.y <= SCALE,
            0 <= total_attenuation.z <= SCALE,
            start_misses_scene(*rdr, start) ==> r == start && total_attenuation == (MyVec3 {
                x: SCALE,
                y: SCALE,
                z: SCALE,
            }),
        decreases rdr.max_ray_bounce_depth + 1 - ray_bounce,
    {
        proof {
            assert(ray_bounce * MAX_TRACE_DIST <= 65 * (MAX_TRACE_DIST as int))
                by (nonlinear_arith)
                requires 0 <= ray_bounce <= 65 && MAX_TRACE_DIST == 0x1000_0000;
        }
        let (f_intersect, ray_info) = rdr.world_element.intersect_all(
            &r,
            MIN_TRACE_DIST,
            MAX_TRACE_DIST,
            r.cast_time,
        );
        if !f_intersect {
            break ;
        }
        let scatter_direction: MyVec3 = scatter(r, &ray_info, rng);
        proof {
            lemma_prod_bound(scatter_direction.x as int, scatter_direction.x as int,
                SCATTER_LIMIT as int);
            lemma_prod_bound(scatter_direction.y as int, scatter_direction.y as int,
                SCATTER_LIMIT as int);
            lemma_prod_bound(scatter_direction.z as int, scatter_direction.z as int,
                SCATTER_LIMIT as int);
        }
        let sraw: i128 = (scatter_direction.x as i128) * (scatter_direction.x as i128) + (
        scatter_direction.y as i128) * (scatter_direction.y as i128) + (
        scatter_direction.z as i128) * (scatter_direction.z as i128);
        // A scattered direction that rounded to zero continues along the
        // surface normal, matching the scattering rules' own fallbacks.
        let new_direction: MyVec3 = if sraw >= 1 {
            safe_unit(scatter_direction)
        } else {
            safe_unit(ray_info.normal)
        };
        proof {
            let ds = ray_info.ds as int;
            lemma_scaled_bound(ds, r.direction.x as int, MAX_TRACE_DIST as int);
            lemma_scaled_bound(ds, r.direction.y as int, MAX_TRACE_DIST as int);
            lemma_scaled_bound(ds, r.direction.z as int, MAX_TRACE_DIST as int);
        }
        r = Ray { p: ray_info.intersect, direction: new_direction, cast_time: r.cast_time };
        proof {
            lemma_prod_bound2(total_attenuation.x as int, ray_info.material.gain.x as int,
                SCALE as int, SCALE as int);
            lemma_prod_bound2(total_attenuation.y as int, ray_info.material.gain.y as int,
                SCALE as int, SCALE as int);
            lemma_prod_bound2(total_attenuation.z as int, ray_info.material.gain.z as int,
                SCALE as int, SCALE as int);
            lemma_div_const_range(total_attenuation.x * ray_info.material.gain.x, SCALE as int,
                SCALE as int);
            lemma_div_const_range(total_attenuation.y * ray_info.material.gain.y, SCALE as int,
                SCALE as int);
            lemma_div_const_range(total_attenuation.z * ray_info.material.gain.z, SCALE as int,
                SCALE as int);
            assert(total_attenuation.x * ray_info.material.gain.x >= 0 && total_attenuation.y
                * ray_info.material.gain.y >= 0 && total_attenuation.z * ray_info.material.gain.z
                >= 0) by (nonlinear_arith)
                requires
                    total_attenuation.x >= 0 && total_attenuation.y >= 0 && total_attenuation.z
                        >= 0 && ray_info.material.gain.x >= 0 && ray_info.material.gain.y >= 0
                        && ray_info.material.gain.z >= 0;
            lemma_div_range(total_attenuation.x * ray_info.material.gain.x, SCALE as int);
            lemma_div_range(total_attenuation.y * ray_info.material.gain.y, SCALE as int);
            lemma_div_range(total_attenuation.z * ray_info.material.gain.z, SCALE as int);
        }
        total_attenuation = total_attenuation.mul(ray_info.material.gain);
        ray_bounce = ray_bounce + 1;
    }
    let sky: MyVec3 = sky_colour(r.direction);
    proof {
        lemma_prod_bound2(total_attenuation.x as int, sky.x as int, SCALE as int, SCALE as int);
        lemma_prod_bound2(total_attenuation.y as int, sky.y as int, SCALE as int, SCALE as int);
        lemma_prod_bound2(total_attenuation.z as int, sky.z as int, SCALE as int, SCALE as int);
        lemma_div_const_range(total_attenuation.x * sky.x, SCALE as int, SCALE as int);
        lemma_div_const_range(total_attenuation.y * sky.y, SCALE as int, SCALE as int);
        lemma_div_const_range(total_attenuation.z * sky.z, SCALE as int, SCALE as int);
        assert(total_attenuation.x * sky.x >= 0 && total_attenuation.y * sky.y >= 0
            && total_attenuation.z * sky.z >= 0) by (nonlinear_arith)
            requires
                total_attenuation.x >= 0 && total_attenuation.y >= 0 && total_attenuation.z >= 0
                    && sky.x >= 0 && sky.y >= 0 && sky.z >= 0;
        lemma_div_range(total_attenuation.x * sky.x, SCALE as int);
        lemma_div_range(total_attenuation.y * sky.y, SCALE as int);
        lemma_div_range(total_attenuation.z * sky.z, SCALE as int);
    }
    let c: MyVec3 = total_attenuation.mul(sky);
    proof {
        if start_misses_scene(*rdr, start) {
            vstd::arithmetic::div_mod::lemma_div_multiples_vanish(sky.x as int, SCALE as int);
            vstd::arithmetic::div_mod::lemma_div_multiples_vanish(sky.y as int, SCALE as int);
            vstd::arithmetic::div_mod::lemma_div_multiples_vanish(sky.z as int, SCALE as int);
            assert(c == spec_sky_colour(start.direction));
        }
        assert(0 <= total_attenuation.x <= SCALE && 0 <= total_attenuation.y <= SCALE && 0
            <= total_attenuation.z <= SCALE && r.direction.bounded(SCALE as int) && c
            == spec_filtered_sky(total_attenuation, r.direction));
    }
    c
}

/// The byte a non-negative accumulated channel quantizes to: the mean over
/// the samples, gamma-corrected by square root, clamped just below one, and
/// scaled to eight bits.
pub open spec fn spec_quantize(sum: int, samples: int) -> int {
    let mean = sum / samples;
    let g = crate::fixed::sqrt_spec(mean * (SCALE as int));
    let cl = if g > CHANNEL_CLAMP {
        CHANNEL_CLAMP as int
    } else {
        g
    };
    cl / 256
}

/// A full channel (every sample at the sky's saturated level) quantizes to
/// the brightest byte; a channel with every sample at or above the half
/// blend stays at or above the gamma-corrected half-blend byte.
pub proof fn lemma_quantize_extremes(sum: int, samples: int)
    requires
        1 <= samples <= 2000,
        0 <= sum <= samples * (SCALE as int),
    ensures
        sum == samples * (SCALE as int) ==> spec_quantize(sum, samples) == 255,
        sum >= samples * 32768 ==> spec_quantize(sum, samples) >= 181,
{
    vstd::arithmetic::div_mod::lemma_div_pos_is_pos(sum, samples);
    if sum == samples * (SCALE as int) {
        vstd::arithmetic::div_mod::lemma_div_multiples_vanish(SCALE as int, samples);
        assert(sum / samples == SCALE as int);
        crate::fixed::lemma_sqrt_unique((SCALE as int) * (SCALE as int), SCALE as int);
        assert((SCALE as int) * (SCALE as int) < (SCALE as int + 1) * (SCALE as int + 1))
            by (nonlinear_arith);
    }
    if sum >= samples * 32768 {
        let mean = sum / samples;
        vstd::arithmetic::div_mod::lemma_div_is_ordered(samples * 32768, sum, samples);
        assert(samples * 32768 == 32768 * samples) by (nonlinear_arith);
        vstd::arithmetic::div_mod::lemma_div_multiples_vanish(32768, samples);
        assert(mean >= 32768);
        let g = crate::fixed::sqrt_spec(mean * (SCALE as int));
        crate::fixed::lemma_sqrt_spec_bounds(mean * (SCALE as int));
        assert(mean * (SCALE as int) >= 0x8000_0000) by (nonlinear_arith)
            requires mean >= 32768 && SCALE == 65536;
        assert(g >= 46340) by (nonlinear_arith)
            requires g >= 0 && (g + 1) * (g + 1) > 0x8000_0000;
        let cl = if g > CHANNEL_CLAMP {
            CHANNEL_CLAMP as int
        } else {
            g
        };
        assert(cl >= 46340);
        vstd::arithmetic::div_mod::lemma_div_is_ordered(46340, cl, 256);
    }
}

/// The three channel offsets of a pixel whose base index is a multiple of
/// three.
proof fn lemma_triple_mod(l: int)
    requires
        l % 3 == 0,
        l >= 0,
    ensures
        (l + 1) % 3 == 1,
        (l + 2) % 3 == 2,
{
    vstd::arithmetic::div_mod::lemma_fundamental_div_mod(l, 3);
    vstd::arithmetic::div_mod::lemma_fundamental_div_mod_converse(l + 1, 3, l / 3, 1);
    vstd::arithmetic::div_mod::lemma_fundamental_div_mod_converse(l + 2, 3, l / 3, 2);
}

/// Quantize a non-negative accumulated channel: divide by the sample count,
/// gamma-correct by square root, clamp just below one, and scale to a byte.
fn quantize_channel(sum: i64, samples: u32) -> (b: u8)
    requires
        1 <= samples <= 2000,
        0 <= sum <= samples * (SCALE as int),
    ensures
        b as int == spec_quantize(sum as int, samples as int),
{
    proof {
        lemma_div_const_range(sum as int, SCALE as int, samples as int);
        vstd::arithmetic::div_mod::lemma_div_pos_is_pos(sum as int, samples as int);
    }
    let mean: i64 = ((sum as u64) / (samples as u64)) as i64;
    let g: i64 = fsqrt(mean);
    let cl: i64 = if g > CHANNEL_CLAMP {
        CHANNEL_CLAMP
    } else {
        g
    };
    ((cl as u64) / 256) as u8
}

/// The byte pattern a sky-only render produces: every third byte (the blue
/// channel) saturates at 255, and the red and green channels stay at or
/// above the gamma-corrected half blend.
pub open spec fn sky_byte_pattern(b: Seq<u8>) -> bool {
    forall|i: int|
        0 <= i < b.len() ==> ((i % 3 == 2 ==> (#[trigger] b[i]) == 255) && (i % 3 != 2 ==> b[i]
            >= 181))
}

/// Render a contiguous range of rows into a fresh row-major byte buffer.
/// Over an empty scene every pixel is pure sky, whatever the random stream
/// holds.
pub fn render_lines(
    rdr: &Renderer,
    horizontal_step: MyVec3,
    vertical_step: MyVec3,
    rsc: RenderScope,
    rng: &mut RandomSource,
) -> (bitmap: Vec<u8>)
    requires
        rdr.wf(),
        horizontal_step.bounded(GEO_LIMIT as int),
        vertical_step.bounded(GEO_LIMIT as int),
        rsc.begin_line + rsc.number_of_lines <= rdr.image_height,
    ensures
        bitmap@.len() == rsc.number_of_lines * rdr.image_width * 3,
        rdr.world_element.objects@.len() == 0 ==> sky_byte_pattern(bitmap@),
{
    let mut bitmap: Vec<u8> = Vec::new();
    let mut y: u32 = 0;
    while y < rsc.number_of_lines
        invariant
            rdr.wf(),
            horizontal_step.bounded(GEO_LIMIT as int),
            vertical_step.bounded(GEO_LIMIT as int),
            rsc.begin_line + rsc.number_of_lines <= rdr.image_height,
            y <= rsc.number_of_lines,
            bitmap@.len() == y * rdr.image_width * 3,
            rdr.world_element.objects@.len() == 0 ==> sky_byte_pattern(bitmap@),
        decreases rsc.number_of_lines - y,
    {
        let row: u32 = rsc.begin_line + y;
        proof {
            lemma_prod_bound2(
                (row as int) * (SCALE as int),
                vertical_step.x as int,
                0x1000_0000,
                GEO_LIMIT as int,
            );
            lemma_prod_bound2(
                (row as int) * (SCALE as int),
                vertical_step.y as int,
                0x1000_0000,
                GEO_LIMIT as int,
            );
            lemma_prod_bound2(
                (row as int) * (SCALE as int),
                vertical_step.z as int,
                0x1000_0000,
                GEO_LIMIT as int,
            );
            lemma_div_const_range(
                (row as int) * (SCALE as int) * vertical_step.x,
                0x400_0000_0000,
                SCALE as int,
            );
            lemma_div_const_range(
                (row as int) * (SCALE as int) * vertical_step.y,
                0x400_0000_0000,
                SCALE as int,
            );
            lemma_div_const_range(
                (row as int) * (SCALE as int) * vertical_step.z,
                0x400_0000_0000,
                SCALE as int,
            );
        }
        let row_k: i64 = (row as i64) * SCALE;
        let row_step: MyVec3 = vertical_step.scale(row_k);
        let viewport_row: MyVec3 = rdr.camera.viewport.reference_corner.add(row_step);
        let mut x: u32 = 0;
        while x < rdr.image_width
            invariant
                rdr.wf(),
                horizontal_step.bounded(GEO_LIMIT as int),
                vertical_step.bounded(GEO_LIMIT as int),
                viewport_row.bounded(0x800_0000_0000 as int),
                x <= rdr.image_width,
                y < rsc.number_of_lines,
                bitmap@.len() == y * rdr.image_width * 3 + x * 3,
                rdr.world_element.objects@.len() == 0 ==> sky_byte_pattern(bitmap@),
            decreases rdr.image_width - x,
        {
            let (rb, gb, bb) = render_pixel(rdr, horizontal_step, vertical_step, viewport_row, x,
                rng);
            let ghost pre = bitmap@;
            proof {
                assert(pre.len() == (y * rdr.image_width + x) * 3) by (nonlinear_arith)
                    requires pre.len() == y * rdr.image_width * 3 + x * 3;
                vstd::arithmetic::div_mod::lemma_mod_multiples_basic(
                    (y * rdr.image_width + x) as int,
                    3,
                );
                lemma_triple_mod(pre.len() as int);
            }
            bitmap.push(rb);
            bitmap.push(gb);
            bitmap.push(bb);
            x = x + 1;
            proof {
                assert(y * rdr.image_width * 3 + (x - 1) * 3 + 3 == y * rdr.image_width * 3 + x
                    * 3) by (nonlinear_arith);
                if rdr.world_element.objects@.len() == 0 {
                    assert forall|i: int| 0 <= i < bitmap@.len() implies ((i % 3 == 2
                        ==> (#[trigger] bitmap@[i]) == 255) && (i % 3 != 2 ==> bitmap@[i]
                        >= 181)) by {
                        if i < pre.len() {
                            assert(bitmap@[i] == pre[i]);
                            assert((i % 3 == 2 ==> pre[i] == 255) && (i % 3 != 2 ==> pre[i]
                                >= 181));
                        }
                    }
                }
            }
        }
        y = y + 1;
        proof {
            assert((y - 1) * rdr.image_width * 3 + rdr.image_width * 3 == y * rdr.image_width
                * 3) by (nonlinear_arith);
        }
    }
    bitmap
}

/// Sample one pixel: average `samples_per_pixel` jittered camera rays traced
/// through the scene, gamma-correct, and quantize each channel.
fn render_pixel(
    rdr: &Renderer,
    horizontal_step: MyVec3,
    vertical_step: MyVec3,
    viewport_row: MyVec3,
    x: u32,
    rng: &mut RandomSource,
) -> (bytes: (u8, u8, u8))
    requires
        rdr.wf(),
        horizontal_step.bounded(GEO_LIMIT as int),
        vertical_step.bounded(GEO_LIMIT as int),
        viewport_row.bounded(0x800_0000_0000 as int),
        x < rdr.image_width,
    ensures
        exists|sx: int, sy: int, sz: int|
            0 <= sx <= rdr.samples_per_pixel * (SCALE as int) && 0 <= sy
                <= rdr.samples_per_pixel * (SCALE as int) && 0 <= sz <= rdr.samples_per_pixel * (
            SCALE as int) && bytes.0 as int == #[trigger] spec_quantize(
                sx,
                rdr.samples_per_pixel as int,
            ) && bytes.1 as int == #[trigger] spec_quantize(sy, rdr.samples_per_pixel as int)
                && bytes.2 as int == #[trigger] spec_quantize(sz, rdr.samples_per_pixel as int),
        rdr.world_element.objects@.len() == 0 ==> bytes.2 == 255 && bytes.0 >= 181 && bytes.1
            >= 181,
{
    proof {
        lemma_prod_bound2(
            (x as int) * (SCALE as int),
            horizontal_step.x as int,
            0x1000_0000,
            GEO_LIMIT as int,
        );
        lemma_prod_bound2(
            (x as int) * (SCALE as int),
            horizontal_step.y as int,
            0x1000_0000,
            GEO_LIMIT as int,
        );
        lemma_prod_bound2(
            (x as int) * (SCALE as int),
            horizontal_step.z as int,
            0x1000_0000,
            GEO_LIMIT as int,
        );
        lemma_div_const_range(
            (x as int) * (SCALE as int) * horizontal_step.x,
            0x400_0000_0000,
            SCALE as int,
        );
        lemma_div_const_range(
            (x as int) * (SCALE as int) * horizontal_step.y,
            0x400_0000_0000,
            SCALE as int,
        );
        lemma_div_const_range(
            (x as int) * (SCALE as int) * horizontal_step.z,
            0x400_0000_0000,
            SCALE as int,
        );
    }
    let col_k: i64 = (x as i64) * SCALE;
    let col_step: MyVec3 = horizontal_step.scale(col_k);
    let viewport_current: MyVec3 = viewport_row.add(col_step);
    let mut sum = MyVec3 { x: 0, y: 0, z: 0 };
    let mut s: u32 = 0;
    while s < rdr.samples_per_pixel
        invariant
            rdr.wf(),
            horizontal_step.bounded(GEO_LIMIT as int),
            vertical_step.bounded(GEO_LIMIT as int),
            viewport_current.bounded(0x1000_0000_0000 as int),
            s <= rdr.samples_per_pixel,
            0 <= sum.x <= s * (SCALE as int),
            0 <= sum.y <= s * (SCALE as int),
            0 <= sum.z <= s * (SCALE as int),
            rdr.world_element.objects@.len() == 0 ==> sum.z == s * (SCALE as int) && sum.x >= s
                * 32768 && sum.y >= s * 32768,
        decreases rdr.samples_per_pixel - s,
    {
        let jx: i64 = uniform_random(rng) - SCALE / 2;
        let jy: i64 = uniform_random(rng) - SCALE / 2;
        proof {
            lemma_prod_bound2(jx as int, vertical_step.x as int, SCALE as int, GEO_LIMIT as int);
            lemma_prod_bound2(jx as int, vertical_step.y as int, SCALE as int, GEO_LIMIT as int);
            lemma_prod_bound2(jx as int, vertical_step.z as int, SCALE as int, GEO_LIMIT as int);
            lemma_prod_bound2(jy as int, horizontal_step.x as int, SCALE as int, GEO_LIMIT as int);
            lemma_prod_bound2(jy as int, horizontal_step.y as int, SCALE as int, GEO_LIMIT as int);
            lemma_prod_bound2(jy as int, horizontal_step.z as int, SCALE as int, GEO_LIMIT as int);
            lemma_div_const_range(jx * vertical_step.x, GEO_LIMIT as int, SCALE as int);
            lemma_div_const_range(jx * vertical_step.y, GEO_LIMIT as int, SCALE as int);
            lemma_div_const_range(jx * vertical_step.z, GEO_LIMIT as int, SCALE as int);
            lemma_div_const_range(jy * horizontal_step.x, GEO_LIMIT as int, SCALE as int);
            lemma_div_const_range(jy * horizontal_step.y, GEO_LIMIT as int, SCALE as int);
            lemma_div_const_range(jy * horizontal_step.z, GEO_LIMIT as int, SCALE as int);
        }
        let off_v: MyVec3 = vertical_step.scale(jx);
        let off_h: MyVec3 = horizontal_step.scale(jy);
        let coord: MyVec3 = viewport_current.add(off_v).add(off_h);
        let cast_time: i64 = match rdr.camera.exposure_length {
            Some(e) => {
                let u: i64 = uniform_random(rng);
                proof {
                    lemma_prod_bound2(e as int, u as int, TIME_LIMIT as int, SCALE as int);
                    lemma_div_const_range(e * (u as int), TIME_LIMIT as int, SCALE as int);
                }
                fmul(e, u)
            },
            None => 0,
        };
        let r: Ray = rdr.camera.generate_ray(coord, cast_time, rng);
        let c: MyVec3 = trace_ray(rdr, r, rng);
        sum = MyVec3 { x: sum.x + c.x, y: sum.y + c.y, z: sum.z + c.z };
        s = s + 1;
        proof {
            assert((s - 1) * (SCALE as int) + SCALE == s * (SCALE as int)) by (nonlinear_arith);
            assert((s - 1) * 32768 + 32768 == s * 32768int) by (nonlinear_arith);
        }
    }
    let rb: u8 = quantize_channel(sum.x, rdr.samples_per_pixel);
    let gb: u8 = quantize_channel(sum.y, rdr.samples_per_pixel);
    let bb: u8 = quantize_channel(sum.z, rdr.samples_per_pixel);
    proof {
        assert(0 <= sum.x <= rdr.samples_per_pixel * (SCALE as int) && 0 <= sum.y
            <= rdr.samples_per_pixel * (SCALE as int) && 0 <= sum.z <= rdr.samples_per_pixel * (
        SCALE as int) && rb as int == spec_quantize(sum.x as int, rdr.samples_per_pixel as int)
            && gb as int == spec_quantize(sum.y as int, rdr.samples_per_pixel as int)
            && bb as int == spec_quantize(sum.z as int, rdr.samples_per_pixel as int));
        if rdr.world_element.objects@.len() == 0 {
            lemma_quantize_extremes(sum.x as int, rdr.samples_per_pixel as int);
            lemma_quantize_extremes(sum.y as int, rdr.samples_per_pixel as int);
            lemma_quantize_extremes(sum.z as int, rdr.samples_per_pixel as int);
        }
    }
    (rb, gb, bb)
}

/// Render the full image: partition the rows, render each range in order, and
/// concatenate the sub-buffers. The result is a row-major R,G,B byte sequence
/// of exactly `width * height * channels` bytes.
pub fn render(rdr: Renderer, target_number_of_threads: u32, seed: u64) -> (bitmap: Vec<u8>)
    requires
        rdr.wf(),
        1 <= target_number_of_threads <= 0x1000,
    ensures
        bitmap@.len() == rdr.image_width * rdr.image_height * 3,
        rdr.world_element.objects@.len() == 0 ==> sky_byte_pattern(bitmap@),
{
    let viewport = rdr.camera.viewport;
    proof {
        assert(GEO_LIMIT as int <= (GEO_LIMIT as int) * (rdr.image_width as int)
            && GEO_LIMIT as int <= (GEO_LIMIT as int) * (rdr.image_height as int))
            by (nonlinear_arith)
            requires rdr.image_width >= 1 && rdr.image_height >= 1 && GEO_LIMIT == 0x4000_0000;
        lemma_div_const_range(viewport.width as int, GEO_LIMIT as int, rdr.image_width as int);
        lemma_div_const_range(viewport.height as int, GEO_LIMIT as int, rdr.image_height as int);
    }
    let wstep: i64 = div_floor(viewport.width as i128, rdr.image_width as i128) as i64;
    let hstep_k: i64 = div_floor(viewport.height as i128, rdr.image_height as i128) as i64;
    proof {
        lemma_scaled_bound(wstep as int, viewport.horizontal_vector.x as int, GEO_LIMIT as int);
        lemma_scaled_bound(wstep as int, viewport.horizontal_vector.y as int, GEO_LIMIT as int);
        lemma_scaled_bound(wstep as int, viewport.horizontal_vector.z as int, GEO_LIMIT as int);
        lemma_scaled_bound((-hstep_k) as int, viewport.vertical_vector.x as int, GEO_LIMIT as int);
        lemma_scaled_bound((-hstep_k) as int, viewport.vertical_vector.y as int, GEO_LIMIT as int);
        lemma_scaled_bound((-hstep_k) as int, viewport.vertical_vector.z as int, GEO_LIMIT as int);
    }
    let horizontal_step: MyVec3 = viewport.horizontal_vector.scale(wstep);
    let vertical_step: MyVec3 = viewport.vertical_vector.scale(-hstep_k);
    let scopes: Vec<RenderScope> = compute_scopes(rdr.image_height, target_number_of_threads);
    let mut bitmap: Vec<u8> = Vec::new();
    let mut i: usize = 0;
    while i < scopes.len()
        invariant
            rdr.wf(),
            horizontal_step.bounded(GEO_LIMIT as int),
            vertical_step.bounded(GEO_LIMIT as int),
            scopes_partition(scopes@, rdr.image_height as int),
            i <= scopes@.len(),
            i < scopes@.len() ==> bitmap@.len() == scopes@[i as int].begin_line * rdr.image_width
                * 3,
            i == scopes@.len() ==> bitmap@.len() == rdr.image_height * rdr.image_width * 3,
            rdr.world_element.objects@.len() == 0 ==> sky_byte_pattern(bitmap@),
        decreases scopes@.len() - i,
    {
        let rsc: RenderScope = scopes[i];
        proof {
            lemma_scope_end(scopes@, rdr.image_height as int, i as int);
        }
        let mut worker_rng: RandomSource = source_from_seed(seed.wrapping_add(i as u64));
        let sub: Vec<u8> = render_lines(&rdr, horizontal_step, vertical_step, rsc, &mut worker_rng);
        let mut j: usize = 0;
        while j < sub.len()
            invariant
                j <= sub@.len(),
                bitmap@.len() == rsc.begin_line * rdr.image_width * 3 + j,
                sub@.len() == rsc.number_of_lines * rdr.image_width * 3,
                rdr.world_element.objects@.len() == 0 ==> sky_byte_pattern(sub@),
                rdr.world_element.objects@.len() == 0 ==> sky_byte_pattern(bitmap@),
            decreases sub@.len() - j,
        {
            let b: u8 = sub[j];
            let ghost pre = bitmap@;
            proof {
                if rdr.world_element.objects@.len() == 0 {
                    assert(pre.len() == 3 * (rsc.begin_line * rdr.image_width) + j)
                        by (nonlinear_arith)
                        requires pre.len() == rsc.begin_line * rdr.image_width * 3 + j;
                    vstd::arithmetic::div_mod::lemma_mod_multiples_vanish(
                        (rsc.begin_line * rdr.image_width) as int,
                        j as int,
                        3,
                    );
                    assert(pre.len() as int % 3 == j as int % 3);
                }
            }
            bitmap.push(b);
            j = j + 1;
            proof {
                if rdr.world_element.objects@.len() == 0 {
                    assert forall|ii: int| 0 <= ii < bitmap@.len() implies ((ii % 3 == 2
                        ==> (#[trigger] bitmap@[ii]) == 255) && (ii % 3 != 2 ==> bitmap@[ii]
                        >= 181)) by {
                        if ii < pre.len() {
                            assert(bitmap@[ii] == pre[ii]);
                            assert((ii % 3 == 2 ==> pre[ii] == 255) && (ii % 3 != 2 ==> pre[ii]
                                >= 181));
                        } else {
                            assert(bitmap@[ii] == sub@[j - 1]);
                            assert((j - 1) % 3 == 2 ==> sub@[j - 1] == 255);
                            assert((j - 1) % 3 != 2 ==> sub@[j - 1] >= 181);
                        }
                    }
                }
            }
        }
        i = i + 1;
        proof {
            assert(rsc.begin_line * rdr.image_width * 3 + rsc.number_of_lines * rdr.image_width
                * 3 == (rsc.begin_line + rsc.number_of_lines) * rdr.image_width * 3)
                by (nonlinear_arith);
            if i < scopes@.len() {
                assert(scopes@[i as int].begin_line == rsc.begin_line + rsc.number_of_lines);
            }
        }
    }
    proof {
        assert(rdr.image_height * rdr.image_width * 3 == rdr.image_width * rdr.image_height * 3)
            by (nonlinear_arith);
    }
    bitmap
}

/// Every scope of a partition ends within the image.
proof fn lemma_scope_end(scopes: Seq<RenderScope>, height: int, i: int)
    requires
        scopes_partition(scopes, height),
        0 <= i < scopes.len(),
    ensures
        scopes[i].begin_line + scopes[i].number_of_lines <= height,
    decreases scopes.len() - i,
{
    if i == scopes.len() - 1 {
    } else {
        lemma_scope_end(scopes, height, i + 1);
        assert(scopes[i + 1].begin_line == scopes[i].begin_line + scopes[i].number_of_lines);
        assert(scopes[i + 1].number_of_lines >= 1);
    }
}

} // verus!
