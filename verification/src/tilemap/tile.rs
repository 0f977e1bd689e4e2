//! What a single tile shows.

use vstd::prelude::*;

verus! {

/// One texture layer of a tile.
#[derive(Clone, Copy, Debug, PartialEq, Eq, Structural)]
pub struct TileLayer {
    /// Which tile of the tilemap texture this layer shows.
    pub texture_index: i32,
    /// The flip flags of this layer.
    pub flip: u32,
}

/// An RGBA tint. Each channel holds the bit pattern of an IEEE 754
/// single-precision number; the bits are carried through untouched.
#[derive(Clone, Copy, Debug, PartialEq, Eq, Structural)]
pub struct TileColor {
    pub r: u32,
    pub g: u32,
    pub b: u32,
    pub a: u32,
}

/// What a tile shows: a stack of still layers, or one animation.
#[derive(Clone, Debug)]
pub enum TileTexture {
    /// Still layers, the lowest first.
    Static(Vec<TileLayer>),
    /// The number of an animation sequence of the tilemap.
    Animated(u32),
}

} // verus!
