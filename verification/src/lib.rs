//! A Monte Carlo path-tracing renderer over fixed-point arithmetic.
//!
//! Geometry, colors and distances are carried as signed 64-bit integers in
//! units of `1 / SCALE`, so that every arithmetic step has an exact
//! mathematical meaning and can be verified. The scene is a flat list of
//! sphere primitives; the renderer partitions the image into row ranges,
//! samples each pixel with a bounded bounce loop, and assembles a row-major
//! byte buffer.

use vstd::prelude::*;

pub mod bounding_box;
pub mod camera;
pub mod common;
pub mod create_world;
pub mod fixed;
pub mod material;
pub mod my_vec3;
pub mod ray;
pub mod rayinfo;
pub mod renderer;
pub mod scatter;
pub mod world_element;
pub mod world_sphere;

verus! {

} // verus!
