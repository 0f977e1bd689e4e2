//! What the renderer gets to see of a tilemap and of a tile.

use vstd::prelude::*;
use crate::handle::TilemapId;
use crate::math::IVec2;
use crate::tilemap::map::{TilemapTexture, TilemapType};
use crate::tilemap::tile::{TileColor, TileLayer, TileTexture};
use crate::{MAX_LAYER_COUNT, NO_TEXTURE};

verus! {

/// The render state of a whole tilemap.
#[derive(Clone, Copy, Debug, PartialEq, Eq, Structural)]
pub struct ExtractedTilemap {
    pub id: TilemapId,
    pub ty: TilemapType,
    /// The side of a render chunk, in tiles.
    pub chunk_size: u32,
    /// `None` for a tilemap that is drawn in plain colors.
    pub texture: Option<TilemapTexture>,
    pub z_index: i32,
}

/// A tile as it arrives at the renderer.
#[derive(Clone, Debug)]
pub struct ExtractedTile {
    /// Where the tile sits in the tilemap.
    pub index: IVec2,
    pub texture: TileTexture,
    pub color: TileColor,
}

impl ExtractedTile {
    /// A still tile has at most `MAX_LAYER_COUNT` layers.
    pub open spec fn wf(&self) -> bool {
        self.texture matches TileTexture::Static(layers) ==> layers@.len() <= MAX_LAYER_COUNT
    }

    /// Tells whether `wf` holds.
    pub fn is_wf(&self) -> (b: bool)
        ensures
            b == self.wf(),
    {
        match &self.texture {
            TileTexture::Static(layers) => layers.len() <= MAX_LAYER_COUNT,
            TileTexture::Animated(_) => true,
        }
    }
}

/// The texture index of layer `i`, or `NO_TEXTURE` where the tile has no such layer.
pub open spec fn layer_texture_index(layers: Seq<TileLayer>, i: int) -> i32 {
    if 0 <= i < layers.len() {
        layers[i].texture_index
    } else {
        NO_TEXTURE
    }
}

/// The flip flags of layer `i`, or 0 where the tile has no such layer.
pub open spec fn layer_flip(layers: Seq<TileLayer>, i: int) -> u32 {
    if 0 <= i < layers.len() {
        layers[i].flip
    } else {
        0
    }
}

} // verus!
