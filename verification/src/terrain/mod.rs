use vstd::prelude::*;

pub mod chunk_bounds;
pub mod chunk_loader;
pub mod chunk_map;
pub mod dual_contouring;
pub mod marching_cubes;

verus! {

/// Edge length of a terrain chunk, in world units.
pub const CHUNK_SIZE: usize = 128;

/// Number of chunk rings loaded around the origin.
pub const CHUNK_RADIUS: usize = 5;

/// Whether chunks farther away are meshed at a coarser resolution.
pub const USE_LOD: bool = false;

} // verus!
