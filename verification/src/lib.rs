//! A dense, row-major matrix library: multiplication, transpose, and a
//! human-readable rendering, with machine-checked contracts for each
//! operation and proofs of the classical algebraic laws.

pub mod laws;
pub mod mat;
pub mod render;

pub use crate::mat::Matrix;
