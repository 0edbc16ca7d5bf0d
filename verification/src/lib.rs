//! Point-cloud instancing: turns the point-sampled primitives of a scene
//! into a flat, ordered list of per-point instance records, and describes
//! how those records are laid out in a GPU buffer.
//!
//! Every scalar that a GPU consumes as a 32-bit float is held here as its
//! IEEE-754 binary32 bit pattern in a `u32`, so that all of the logic is
//! integer arithmetic that can be checked. Callers convert at the edge
//! with `f32::to_bits` and `f32::from_bits`.

pub mod color;
pub mod instance;
pub mod pointcloud_loader;
pub mod single;
pub mod sphere_mesh;
pub mod vertex;
