//! Escape-time evaluation of the Mandelbrot set over a pixel grid.
//!
//! The library is generic over the orbit state: callers supply how a pixel
//! becomes a starting point, when a point has escaped, and one step of the
//! recurrence. The iteration budget, the row-major scan and the row-parallel
//! decomposition are verified here.

use vstd::prelude::*;

pub mod escape;
pub mod grid;
pub mod parallel;

pub use escape::escape_time;
pub use grid::{evaluate, evaluate_grid, evaluate_row, GridSpec, Kernel};
pub use parallel::evaluate_grid_parallel;
