use vstd::prelude::*;

pub mod matrix;
pub mod numeric;
pub mod parallel;
pub mod text;

pub use matrix::{same_size, Matrix, MatrixError};
pub use numeric::{operation, Element, ElementOp, One, Zero};
pub use parallel::{band_ranges, chunk_size, AddMultiThreaded, SubMultiThreaded};
pub use text::render_cells;

verus! {

} // verus!
