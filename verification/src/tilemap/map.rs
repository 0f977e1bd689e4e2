//! The shape and the texture of a tilemap.

use vstd::prelude::*;
use crate::handle::TextureHandle;
use crate::math::UVec2;

verus! {

/// The shape of the cells of a tilemap.
#[derive(Clone, Copy, Debug, PartialEq, Eq, Structural)]
pub enum TilemapType {
    Square,
    Isometric,
    /// Hexagonal cells, with the length of a leg.
    Hexagonal(u32),
}

/// How a texture is sampled between texels.
#[derive(Clone, Copy, Debug, PartialEq, Eq, Structural)]
pub enum FilterMode {
    Nearest,
    Linear,
}

/// The layout of a tilemap texture.
#[derive(Clone, Copy, Debug, PartialEq, Eq, Structural)]
pub struct TilemapTextureDescriptor {
    /// The size of the whole texture, in pixels.
    pub size: UVec2,
    /// The size of one tile in the texture, in pixels.
    pub tile_size: UVec2,
    pub filter_mode: FilterMode,
}

/// The texture of a tilemap: the asset and how it is cut into tiles.
#[derive(Clone, Copy, Debug, PartialEq, Eq, Structural)]
pub struct TilemapTexture {
    pub texture: TextureHandle,
    pub desc: TilemapTextureDescriptor,
}

impl TilemapTexture {
    /// The asset that holds the pixels.
    pub fn handle(&self) -> (h: TextureHandle)
        ensures
            h == self.texture,
    {
        self.texture
    }
}

} // verus!
