//! A verified ray-tracing math kernel over fixed-point scalars.
//!
//! Every scalar is an `i64` count of fixed-point units (`SCALE` units equal
//! one), so the whole kernel is exact integer arithmetic whose rounding is
//! stated, clause by clause, in the contracts.

pub mod canvas;
pub mod common;
pub mod intersection;
pub mod light;
pub mod material;
pub mod matrix;
pub mod ray;
pub mod render;
pub mod sphere;
pub mod tuple;
pub mod world;
