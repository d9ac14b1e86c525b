//! Voxel world logic: block kinds, chunked block storage, the chunk index,
//! cube-face meshing and the bounded candidate queue of chunk generation.
pub mod array_queue;
pub mod block;
pub mod chunk_blocks;
pub mod chunk_render;
pub mod chunks;
pub mod console;
pub mod interaction;
pub mod maps;
pub mod spacial;
pub mod swizzle;
pub mod ui;

use vstd::prelude::*;

verus! {

/// The number of blocks along each edge of a chunk.
pub const CHUNK_WIDTH: i32 = 32;

} // verus!
