//! Fixed-size vectors and square matrices over integer scalars, with
//! element-wise and scalar arithmetic, dot and cross products, normalization,
//! matrix products and affine transform builders.
//!
//! Every operation is specified over a mathematical model: a vector is viewed
//! as a `Seq<int>` and a matrix as a `Seq<Seq<int>>` of rows.
pub mod math;
pub mod scalars;
pub mod model;
pub mod vectors;
pub mod matrices;
pub mod laws;
mod slices;

pub use math::{Scalar, ScalarMath, Sqrrt, UnitValue};
pub use vectors::{Normalize, Vec2, Vec3, Vec4, VecMath, VecN};
pub use matrices::{Identity, Mat2, Mat3, Mat4, MatN, MatVecMath};
