use rand::SeedableRng;
use raytracer::bounding_box::WEBoundingBox;
use raytracer::common::RandomSource;
use raytracer::fixed::{SCALE, div_floor, fdiv, fmul, fsqrt, isqrt};
use raytracer::material::Material;
use raytracer::my_vec3::{MyVec3, vec3_normalize};
use raytracer::ray::Ray;
use raytracer::scatter::ScatteringType;
use raytracer::world_element::WorldElement;
use raytracer::world_sphere::{WEMovingSphere, WESphere};

fn source(seed: u64) -> RandomSource {
    RandomSource::new(rand::rngs::StdRng::seed_from_u64(seed))
}

fn diffuse_grey() -> Material {
    Material {
        surface: ScatteringType::DiffuseScattering,
        gain: MyVec3 { x: 32768, y: 32768, z: 32768 },
        metal_fuzz: None,
        index_of_refraction: None,
    }
}

fn dot_raw(a: &MyVec3, b: &MyVec3) -> i128 {
    a.x as i128 * b.x as i128 + a.y as i128 * b.y as i128 + a.z as i128 * b.z as i128
}

#[test]
fn fixed_point_basics() {
    assert_eq!(div_floor(7, 2), 3);
    assert_eq!(div_floor(-7, 2), -4);
    assert_eq!(div_floor(-8, 2), -4);
    assert_eq!(isqrt(0), 0);
    assert_eq!(isqrt(15), 3);
    assert_eq!(isqrt(16), 4);
    assert_eq!(fmul(SCALE, SCALE), SCALE);
    assert_eq!(fmul(2 * SCALE, 3 * SCALE), 6 * SCALE);
    assert_eq!(fdiv(SCALE, 2 * SCALE), SCALE / 2);
    assert_eq!(fsqrt(4 * SCALE), 2 * SCALE);
}

#[test]
fn vector_algebra_is_exact() {
    let a = MyVec3 { x: SCALE, y: 2 * SCALE, z: 3 * SCALE };
    let b = MyVec3 { x: 4 * SCALE, y: -5 * SCALE, z: 6 * SCALE };
    assert_eq!(a.dot(b), (4 - 10 + 18) * SCALE);
    let c = a.cross(b);
    // (2*6 - 3*(-5), 3*4 - 1*6, 1*(-5) - 2*4) = (27, 6, -13)
    assert_eq!(c.x, 27 * SCALE);
    assert_eq!(c.y, 6 * SCALE);
    assert_eq!(c.z, -13 * SCALE);
    let d = MyVec3 { x: 3 * SCALE, y: 4 * SCALE, z: 0 };
    assert_eq!(d.squared_length(), 25 * SCALE);
    assert_eq!(d.length(), 5 * SCALE);
    let u = vec3_normalize(d);
    assert_eq!(u.x, 3 * SCALE / 5);
    assert_eq!(u.y, 4 * SCALE / 5);
    assert_eq!(u.z, 0);
    let halved = d.div(2 * SCALE);
    assert_eq!(halved.x, 3 * SCALE / 2);
    assert_eq!(halved.y, 2 * SCALE);
    assert_eq!(halved.z, 0);
}

#[test]
fn ray_at_walks_the_direction() {
    let r = Ray {
        p: MyVec3 { x: SCALE, y: 0, z: 0 },
        direction: MyVec3 { x: 0, y: 0, z: -SCALE },
        cast_time: 0,
    };
    let p = r.at(3 * SCALE);
    assert_eq!(p.x, SCALE);
    assert_eq!(p.y, 0);
    assert_eq!(p.z, -3 * SCALE);
}

// Unit sphere at the origin, radius one, diffuse gain one half; a ray from
// (0, 0, 5) toward (0, 0, -1) hits at distance four with normal (0, 0, 1).
#[test]
fn axial_ray_hits_unit_sphere_at_distance_four() {
    let sphere = WESphere { c: MyVec3 { x: 0, y: 0, z: 0 }, r: SCALE, material: diffuse_grey() };
    let ray = Ray {
        p: MyVec3 { x: 0, y: 0, z: 5 * SCALE },
        direction: MyVec3 { x: 0, y: 0, z: -SCALE },
        cast_time: 0,
    };
    let (hit, info) = sphere.intersect(&ray, 66, 0x1000_0000, 0);
    assert!(hit);
    assert_eq!(info.ds, 4 * SCALE);
    assert_eq!(info.intersect.x, 0);
    assert_eq!(info.intersect.y, 0);
    assert_eq!(info.intersect.z, SCALE);
    assert_eq!(info.normal.x, 0);
    assert_eq!(info.normal.y, 0);
    assert_eq!(info.normal.z, SCALE);
    assert!(info.is_front);
    assert_eq!(info.material.gain.x, 32768);
}

// The computed intersection point lies on the sphere's surface within
// fixed-point rounding.
#[test]
fn intersection_point_lies_on_surface() {
    let sphere = WESphere {
        c: MyVec3 { x: 2 * SCALE, y: -SCALE, z: 0 },
        r: 3 * SCALE,
        material: diffuse_grey(),
    };
    let ray = Ray {
        p: MyVec3 { x: 9 * SCALE, y: 5 * SCALE, z: 7 * SCALE },
        direction: MyVec3 { x: -43000, y: -36000, z: -39000 },
        cast_time: 0,
    };
    let (hit, info) = sphere.intersect(&ray, 66, 0x1000_0000, 0);
    assert!(hit);
    let off = MyVec3 {
        x: info.intersect.x - sphere.c.x,
        y: info.intersect.y - sphere.c.y,
        z: info.intersect.z - sphere.c.z,
    };
    let dist_sq = dot_raw(&off, &off);
    let r_sq = sphere.r as i128 * sphere.r as i128;
    let diff = (dist_sq - r_sq).abs() as f64;
    // |p - c|^2 within one percent of r^2.
    assert!(diff < 0.01 * r_sq as f64, "distance^2 {} vs r^2 {}", dist_sq, r_sq);
}

// The reported normal always opposes the incoming direction.
#[test]
fn hit_normal_opposes_ray_direction() {
    let sphere = WESphere { c: MyVec3 { x: 0, y: 0, z: 0 }, r: SCALE, material: diffuse_grey() };
    let dirs = [
        MyVec3 { x: -40000, y: -30000, z: -40000 },
        MyVec3 { x: 10000, y: -20000, z: -63000 },
        MyVec3 { x: 0, y: 0, z: -SCALE },
    ];
    for d in dirs.iter() {
        let ray = Ray { p: MyVec3 { x: 9000, y: 12000, z: 5 * SCALE }, direction: *d, cast_time: 0 };
        let (hit, info) = sphere.intersect(&ray, 66, 0x1000_0000, 0);
        if hit {
            assert!(dot_raw(&info.normal, &ray.direction) <= 0);
        }
    }
    // A ray cast from inside the glass sphere exits through the back face;
    // the normal is flipped so it still opposes the direction.
    let ray = Ray {
        p: MyVec3 { x: 0, y: 0, z: 0 },
        direction: MyVec3 { x: 0, y: 0, z: -SCALE },
        cast_time: 0,
    };
    let (hit, info) = sphere.intersect(&ray, 66, 0x1000_0000, 0);
    assert!(hit);
    assert!(!info.is_front);
    assert!(dot_raw(&info.normal, &ray.direction) <= 0);
}

#[test]
fn nearest_hit_wins_and_first_breaks_ties() {
    let mut world = WorldElement { objects: Vec::new() };
    let mut near_mat = diffuse_grey();
    near_mat.gain = MyVec3 { x: 111, y: 0, z: 0 };
    let mut far_mat = diffuse_grey();
    far_mat.gain = MyVec3 { x: 222, y: 0, z: 0 };
    // Farther sphere first in insertion order.
    world.add_sphere(0, 0, -6 * SCALE, SCALE, far_mat);
    world.add_sphere(0, 0, -3 * SCALE, SCALE, near_mat);
    let ray = Ray {
        p: MyVec3 { x: 0, y: 0, z: 0 },
        direction: MyVec3 { x: 0, y: 0, z: -SCALE },
        cast_time: 0,
    };
    let (hit, info) = world.intersect_all(&ray, 66, 0x1000_0000, 0);
    assert!(hit);
    assert_eq!(info.ds, 2 * SCALE);
    assert_eq!(info.material.gain.x, 111);

    // Exact tie: the first-inserted sphere's record is kept.
    let mut tied = WorldElement { objects: Vec::new() };
    world_tie(&mut tied, 333, 444);
    let (hit2, info2) = tied.intersect_all(&ray, 66, 0x1000_0000, 0);
    assert!(hit2);
    assert_eq!(info2.material.gain.x, 333);
}

fn world_tie(world: &mut WorldElement, first_tag: i64, second_tag: i64) {
    let mut a = diffuse_grey();
    a.gain = MyVec3 { x: first_tag, y: 0, z: 0 };
    let mut b = diffuse_grey();
    b.gain = MyVec3 { x: second_tag, y: 0, z: 0 };
    world.add_sphere(0, 0, -3 * SCALE, SCALE, a);
    world.add_sphere(0, 0, -3 * SCALE, SCALE, b);
}

#[test]
fn empty_world_reports_no_hit() {
    let world = WorldElement { objects: Vec::new() };
    let ray = Ray {
        p: MyVec3 { x: 0, y: 0, z: 0 },
        direction: MyVec3 { x: 0, y: 0, z: -SCALE },
        cast_time: 0,
    };
    let (hit, _info) = world.intersect_all(&ray, 66, 0x1000_0000, 0);
    assert!(!hit);
}

// A moving sphere is intersected where it stands at the ray's cast time.
#[test]
fn moving_sphere_is_resolved_at_cast_time() {
    let base = WESphere { c: MyVec3 { x: 0, y: 0, z: 0 }, r: SCALE, material: diffuse_grey() };
    // Speed one quarter unit per time unit along +x.
    let moving = WEMovingSphere::new(base, 16384, MyVec3 { x: SCALE, y: 0, z: 0 });
    // At cast time four, the center has shifted to (1, 0, 0).
    let ray = Ray {
        p: MyVec3 { x: SCALE, y: 0, z: 5 * SCALE },
        direction: MyVec3 { x: 0, y: 0, z: -SCALE },
        cast_time: 4 * SCALE,
    };
    let (hit, info) = moving.intersect(&ray, 66, 0x1000_0000, 4 * SCALE);
    assert!(hit);
    assert_eq!(info.ds, 4 * SCALE);
    // At cast time zero the sphere is still at the origin and the same ray
    // only grazes past it.
    let ray0 = Ray { cast_time: 0, ..ray };
    let (hit0, _ignored) = moving.intersect(&ray0, 66, 0x1000_0000, 0);
    assert!(hit0, "the ray at x = 1 is tangent to the unit sphere at the origin");
}

// A ray starting strictly inside the box with no degenerate axis must hit.
#[test]
fn ray_from_inside_box_hits() {
    let bb = WEBoundingBox {
        x0: -SCALE,
        x1: SCALE,
        y0: -SCALE,
        y1: SCALE,
        z0: -SCALE,
        z1: SCALE,
    };
    let ray = Ray {
        p: MyVec3 { x: 5000, y: -4000, z: 300 },
        direction: MyVec3 { x: 20000, y: 30000, z: -10000 },
        cast_time: 0,
    };
    let (hit, _info) = bb.intersect(&ray, 66, 0x1000_0000, 0);
    assert!(hit);
}

#[test]
fn box_test_is_conservative_on_degenerate_axis() {
    let bb = WEBoundingBox {
        x0: 2 * SCALE,
        x1: 3 * SCALE,
        y0: 2 * SCALE,
        y1: 3 * SCALE,
        z0: 2 * SCALE,
        z1: 3 * SCALE,
    };
    // The direction's y component is exactly zero: report a hit even though
    // the line never reaches the box.
    let ray = Ray {
        p: MyVec3 { x: 0, y: 0, z: 0 },
        direction: MyVec3 { x: SCALE, y: 0, z: SCALE },
        cast_time: 0,
    };
    let (hit, _info) = bb.intersect(&ray, 66, 0x1000_0000, 0);
    assert!(hit);
}

#[test]
fn box_test_rejects_a_clear_miss() {
    let bb = WEBoundingBox {
        x0: 2 * SCALE,
        x1: 3 * SCALE,
        y0: 2 * SCALE,
        y1: 3 * SCALE,
        z0: 2 * SCALE,
        z1: 3 * SCALE,
    };
    let ray = Ray {
        p: MyVec3 { x: 0, y: 0, z: 0 },
        direction: MyVec3 { x: SCALE, y: -SCALE, z: SCALE },
        cast_time: 0,
    };
    let (hit, _info) = bb.intersect(&ray, 66, 0x1000_0000, 0);
    assert!(!hit);
}

#[test]
fn create_world_builds_a_populated_scene() {
    let mut rng = source(11);
    let world = raytracer::create_world::create_world(&mut rng);
    let len = world.objects.len();
    assert!(4 <= len && len <= 533);
    // The ground sphere comes first.
    match &world.objects[0] {
        raytracer::world_element::Primitive::Sphere(s) => {
            assert_eq!(s.c.y, -65536000);
            assert_eq!(s.r, 65536000);
        },
        _ => panic!("the first object is the ground sphere"),
    }
    // The last object is the moving metallic sphere at (4, 1, 0).
    match &world.objects[len - 1] {
        raytracer::world_element::Primitive::Moving(m) => {
            assert_eq!(m.sphere_zero.c.x, 4 * SCALE);
            assert_eq!(m.sphere_zero.r, SCALE);
            assert_eq!(m.speed, 16384);
            assert_eq!(m.direction.x, SCALE);
        },
        _ => panic!("the last object is the moving sphere"),
    }
    // Just before it stand the large diffuse and glass spheres.
    match &world.objects[len - 3] {
        raytracer::world_element::Primitive::Sphere(s) => {
            assert!(matches!(s.material.surface, ScatteringType::RefractiveScattering));
        },
        _ => panic!("the third-from-last object is the glass sphere"),
    }
}
