use rand::SeedableRng;
use raytracer::common::{
    RandomSource, random_in_interval, random_point_in_unit_sphere, uniform_random,
    uniform_within_unit_circle,
};
use raytracer::fixed::SCALE;
use raytracer::my_vec3::MyVec3;
use raytracer::ray::Ray;
use raytracer::scatter::{
    ScatteringType, diffuse_direction, metallic_direction, reflect, refractive_direction,
    scatter, schlick_reflectance,
};
use raytracer::material::Material;
use raytracer::rayinfo::RayInfo;

fn source(seed: u64) -> RandomSource {
    RandomSource::new(rand::rngs::StdRng::seed_from_u64(seed))
}

fn sq_len(v: &MyVec3) -> i128 {
    v.x as i128 * v.x as i128 + v.y as i128 * v.y as i128 + v.z as i128 * v.z as i128
}

#[test]
fn uniform_draws_stay_in_range() {
    let mut rng = source(1);
    for _ in 0..256 {
        let u = uniform_random(&mut rng);
        assert!(0 <= u && u < SCALE);
        let v = random_in_interval(-3 * SCALE, 5 * SCALE, &mut rng);
        // The draw is in [0, 1), so a non-empty interval never reaches max.
        assert!(-3 * SCALE <= v && v < 5 * SCALE);
        let w = random_in_interval(7, 7, &mut rng);
        assert_eq!(w, 7);
    }
}

// The rejection samplers never return a point with squared length >= 1.
#[test]
fn unit_sphere_sampler_stays_strictly_inside() {
    let mut rng = source(2);
    let bound = SCALE as i128 * SCALE as i128;
    for _ in 0..512 {
        let p = random_point_in_unit_sphere(&mut rng);
        assert!(sq_len(&p) < bound);
    }
}

#[test]
fn unit_circle_sampler_stays_strictly_inside_the_plane() {
    let mut rng = source(3);
    let bound = SCALE as i128 * SCALE as i128;
    for _ in 0..512 {
        let p = uniform_within_unit_circle(&mut rng);
        assert!(sq_len(&p) < bound);
        assert_eq!(p.z, 0);
    }
}

#[test]
fn reflection_mirrors_about_the_normal() {
    let d = MyVec3 { x: SCALE, y: -SCALE, z: 0 };
    let n = MyVec3 { x: 0, y: SCALE, z: 0 };
    let r = reflect(d, n);
    assert_eq!(r.x, SCALE);
    assert_eq!(r.y, SCALE);
    assert_eq!(r.z, 0);
}

#[test]
fn diffuse_direction_adds_the_unit_offset() {
    let n = MyVec3 { x: 0, y: SCALE, z: 0 };
    // A sample pointing along +x: the scattered direction is normal + x.
    let s = MyVec3 { x: 40000, y: 0, z: 0 };
    let r = diffuse_direction(n, s);
    assert_eq!(r.x, SCALE);
    assert_eq!(r.y, SCALE);
    assert_eq!(r.z, 0);
}

#[test]
fn diffuse_direction_falls_back_to_normal_on_cancellation() {
    let n = MyVec3 { x: 0, y: SCALE, z: 0 };
    // A sample pointing exactly against the normal cancels the sum.
    let s = MyVec3 { x: 0, y: -50000, z: 0 };
    let r = diffuse_direction(n, s);
    assert_eq!(r.x, n.x);
    assert_eq!(r.y, n.y);
    assert_eq!(r.z, n.z);
}

#[test]
fn metallic_direction_reflects_straight_down_to_straight_up() {
    let d = MyVec3 { x: 0, y: -SCALE, z: 0 };
    let n = MyVec3 { x: 0, y: SCALE, z: 0 };
    let s = MyVec3 { x: 12345, y: 6789, z: -4321 };
    // Zero fuzz: the sample is ignored.
    let r = metallic_direction(d, n, 0, s);
    assert_eq!(r.x, 0);
    assert_eq!(r.y, SCALE);
    assert_eq!(r.z, 0);
}

#[test]
fn metallic_direction_falls_back_when_fuzz_buries_the_ray() {
    let d = MyVec3 { x: 0, y: -SCALE, z: 0 };
    let n = MyVec3 { x: 0, y: SCALE, z: 0 };
    // Full fuzz with a sample pointing into the surface cancels the
    // reflection; the fallback is the normal.
    let s = MyVec3 { x: 0, y: -SCALE, z: 0 };
    let r = metallic_direction(d, n, SCALE, s);
    assert_eq!(r.x, n.x);
    assert_eq!(r.y, n.y);
    assert_eq!(r.z, n.z);
}

// Schlick reflectance at normal incidence equals r0 = ((1 - n) / (1 + n))^2
// exactly, for refractive indices on both sides of one.
#[test]
fn schlick_at_normal_incidence_is_r0() {
    // n = 1.5: r0 = floor((-32768 * 65536) / 163840) = -13108 (fixed point),
    // squared and rescaled: 2621.
    assert_eq!(schlick_reflectance(SCALE, 98304), 2621);
    // n ~ 1/1.5: r0 = 13107, same squared magnitude.
    assert_eq!(schlick_reflectance(SCALE, 43690), 2621);
    // n = 1: no reflection at all at normal incidence.
    assert_eq!(schlick_reflectance(SCALE, SCALE), 0);
}

#[test]
fn schlick_at_grazing_incidence_is_total() {
    assert_eq!(schlick_reflectance(0, 98304), SCALE);
}

#[test]
fn refraction_at_matched_index_passes_straight_through() {
    let d = MyVec3 { x: 0, y: -SCALE, z: 0 };
    let n = MyVec3 { x: 0, y: SCALE, z: 0 };
    // Index one, head-on: the refracted ray continues straight.
    let r = refractive_direction(d, n, true, 0, SCALE, 0, 0);
    assert_eq!(r.x, 0);
    assert_eq!(r.y, -SCALE);
    assert_eq!(r.z, 0);
}

#[test]
fn refraction_reflects_on_total_internal_reflection() {
    // Leaving a dense medium (not front face -> eta is the raw index) at a
    // steep angle forces reflection.
    let d = MyVec3 { x: 60000, y: -26000, z: 0 };
    let n = MyVec3 { x: 0, y: SCALE, z: 0 };
    let refl = reflect(d, n);
    let r = refractive_direction(d, n, false, 0, 4 * SCALE, 0, SCALE - 1);
    assert_eq!(r.x, refl.x);
    assert_eq!(r.y, refl.y);
    assert_eq!(r.z, refl.z);
}

#[test]
fn scatter_dispatches_by_surface_kind() {
    let mut rng = source(9);
    let ray = Ray {
        p: MyVec3 { x: 0, y: 2 * SCALE, z: 0 },
        direction: MyVec3 { x: 0, y: -SCALE, z: 0 },
        cast_time: 0,
    };
    let info = RayInfo {
        intersect: MyVec3 { x: 0, y: SCALE, z: 0 },
        normal: MyVec3 { x: 0, y: SCALE, z: 0 },
        ds: SCALE,
        is_front: true,
        material: Material {
            surface: ScatteringType::MetallicScattering,
            gain: MyVec3 { x: SCALE, y: SCALE, z: SCALE },
            metal_fuzz: Some(0),
            index_of_refraction: None,
        },
    };
    // Zero fuzz metal: deterministic mirror reflection regardless of rng.
    let out = scatter(ray, &info, &mut rng);
    assert_eq!(out.x, 0);
    assert_eq!(out.y, SCALE);
    assert_eq!(out.z, 0);
}
