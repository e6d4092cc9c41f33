//! Core of a small 2D sailing simulation: a seeded lattice-noise table, a
//! tile-map depth field with a coastline rule beyond its edge, byte-encoded
//! input decoding, and a software triangle rasterizer over a fixed-size
//! pixel buffer.
use vstd::prelude::*;

pub mod engine;
pub mod input;
pub mod noise;
pub mod raster;
pub mod tile_map;

verus! {

/// Width of the frame buffer in pixels.
pub const WIDTH: usize = 160;

/// Height of the frame buffer in pixels.
pub const HEIGHT: usize = 144;

} // verus!
