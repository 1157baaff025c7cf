//! Turns an interleaved RGBA pixel buffer into vector outlines: one channel is
//! sampled into an intensity grid, two independent thresholds classify it into
//! a fill grid and a hole grid, and those grids are either traced into SVG path
//! strings or sampled at a stride into coordinate pairs.
use vstd::prelude::*;

pub mod classify;
pub mod grid;
pub mod sample;
pub mod trace;
pub mod world;

pub use classify::{fill_grid, hole_grid};
pub use grid::{sample_channel, GridError};
pub use sample::sample_points;
pub use trace::trace;
pub use world::{sample_world, trace_world, SampledWorld, World};

verus! {

} // verus!
