//! A path tracer over saturating fixed-point arithmetic.

pub mod aabb;
pub mod bvh;
pub mod camera;
pub mod fixed;
pub mod geometry;
pub mod material;
pub mod math;
pub mod noise;
pub mod ray;
pub mod render;
pub mod shapes;
pub mod texture;
pub mod trig;
