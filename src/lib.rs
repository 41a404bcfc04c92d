//! Dense matrices with their shape fixed at compile time, stored column-major
//! in a fixed-size copy-on-write vector that either borrows caller data or
//! owns its own.

pub mod cow_vec;
pub mod matrix;

pub use cow_vec::StaticCowVec;
pub use matrix::{GemmArgs, Matrix};
