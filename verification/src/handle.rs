//! Names for things that live outside this crate.
//!
//! The host hands these out and resolves them again. Nothing in this crate
//! looks inside one: they are compared, stored and handed back.

use vstd::prelude::*;

verus! {

/// Identifies a tilemap.
#[derive(Clone, Copy, Debug, PartialEq, Eq, Hash, Structural)]
pub struct TilemapId(pub u64);

/// Identifies a texture asset, whether or not it has been loaded yet.
#[derive(Clone, Copy, Debug, PartialEq, Eq, Hash, Structural)]
pub struct TextureHandle(pub u64);

/// Identifies a buffer on the GPU.
#[derive(Clone, Copy, Debug, PartialEq, Eq, Hash, Structural)]
pub struct BufferId(pub u64);

/// Identifies a compiled render pipeline.
#[derive(Clone, Copy, Debug, PartialEq, Eq, Hash, Structural)]
pub struct PipelineId(pub u64);

/// Identifies a texture view on the GPU.
#[derive(Clone, Copy, Debug, PartialEq, Eq, Hash, Structural)]
pub struct TextureViewId(pub u64);

/// Identifies a sampler on the GPU.
#[derive(Clone, Copy, Debug, PartialEq, Eq, Hash, Structural)]
pub struct SamplerId(pub u64);

/// Identifies a camera view.
#[derive(Clone, Copy, Debug, PartialEq, Eq, Hash, Structural)]
pub struct ViewId(pub u64);

} // verus!
