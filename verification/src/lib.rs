//! Chunked tile meshes and GPU resource caches for large 2-D tilemaps.
//!
//! A tilemap is cut into square chunks. Every chunk keeps the render
//! attributes of its tiles, rebuilds its quad geometry only after a tile
//! changed, and remembers the GPU buffers that hold the last uploaded
//! geometry. Bind groups are cached per tilemap and per texture, and the draw
//! commands of a tilemap are recorded in back-to-front order.
//!
//! The crate never talks to a GPU itself. Whatever has to happen on the device
//! is handed out as plain commands, and whatever the device answers comes back
//! as plain values.

pub mod handle;
pub mod ldtk;
pub mod math;
pub mod render;
pub mod tilemap;

use vstd::prelude::*;

verus! {

/// The number of texture layers a single tile can carry.
pub const MAX_LAYER_COUNT: usize = 4;

/// The texture index of a layer that is not there.
pub const NO_TEXTURE: i32 = -1;

} // verus!
