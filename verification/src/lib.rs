//! A small path-tracing renderer over fixed-point arithmetic.
//!
//! The scene is a list of spheres with Lambertian, Metal or Dielectric
//! surfaces; a camera shoots jittered rays through every pixel and the
//! recursive ray-colour evaluator follows each ray through the scene up to a
//! fixed bounce budget. All geometry and shading run on `i64` fixed-point
//! scalars (see `fixed`), so the whole pipeline carries exact contracts.

pub mod camera;
pub mod color;
pub mod fixed;
pub mod hittable;
pub mod interval;
pub mod material;
pub mod point;
pub mod ray;
pub mod rng;
pub mod sphere;
pub mod vector;
pub mod vector_utils;

