//! A verified voxel ray tracer.
//!
//! The scene is a set of boxes that may be turned about the vertical axis.
//! A bounding-volume hierarchy answers nearest-hit queries, and a recursive
//! shading pipeline turns a ray into an 8-bit colour.
//!
//! All geometry is fixed-point: one unit of a coordinate is a millionth of a
//! world unit (see [`fixed::SCALE`]), and every operation saturates at the
//! ends of `i64` instead of overflowing.

pub mod bvh;
pub mod color;
pub mod cube;
pub mod culling;
pub mod fixed;
pub mod framebuffer;
pub mod materials;
pub mod ray_intersect;
pub mod shading;
pub mod texture;
pub mod tone;
pub mod vec3;
