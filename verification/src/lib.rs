//! A software 3D rendering core on fixed-point arithmetic.
//!
//! The crate covers the geometry and visibility pipeline of a small
//! real-time renderer: vector and matrix math on fixed-point scalars,
//! a line-oriented mesh-text loader, the per-frame transform sequence
//! (rotation, translation, perspective projection), backface culling,
//! flat shading, and the painter's-algorithm depth sort.  Window
//! handling, input events and the pixel-drawing primitive are outside
//! collaborators: the library only produces an ordered list of colored
//! screen-space triangles.
//!
//! Scalars are `i64` values holding a real number scaled by `FX_ONE`
//! (2^16), so every operation is exact integer arithmetic with
//! truncating division, and every contract states the result exactly.

pub mod error;
pub mod fixed;
pub mod vector;
pub mod matrix;
pub mod mesh;
pub mod parse;
pub mod pipeline;

pub use error::RendererError;
pub use fixed::{FX_ONE, FX_MAX, fx_mul, fx_div, tdiv, fx_mul_s, fx_div_s, fx_sqrt, is_isqrt, i64_ok, fx_ok, mul_wide, isqrt_u128};
pub use vector::Vec3D;
pub use matrix::{Mat4x4, rotation_z_matrix, rotation_x_matrix, projection_matrix};
pub use mesh::{Color, Triangle, Mesh};
pub use pipeline::{flat_shade, mean_depth, sort_by_depth, render_frame};
