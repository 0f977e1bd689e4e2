//! Where the levels of an LDtk world lie, and which tile of a tileset a
//! sprite shows. Lengths are in pixels; y grows upwards.

use vstd::prelude::*;
use crate::math::UVec2;

verus! {

/// How the levels of a world are laid out.
#[derive(Clone, Copy, Debug, PartialEq, Eq, Structural)]
pub enum WorldLayout {
    /// Every level says where it lies.
    Free,
    /// Every level says where it lies, on a grid.
    GridVania,
    /// The levels stand in a row, from left to right.
    LinearHorizontal,
    /// The levels stand in a column, from top to bottom.
    LinearVertical,
}

/// Where a level lies in its world, and how large it is.
#[derive(Clone, Copy, Debug, PartialEq, Eq, Structural)]
pub struct LevelBounds {
    pub world_x: i32,
    /// Counted downwards, as the editor does.
    pub world_y: i32,
    pub px_wid: i32,
    pub px_hei: i32,
}

/// The widths of the levels before `index`, with the spacing after each.
pub open spec fn widths_before(levels: Seq<LevelBounds>, spacing: i32, index: int) -> int
    decreases index,
{
    if index <= 0 {
        0
    } else {
        widths_before(levels, spacing, index - 1) + levels[index - 1].px_wid + spacing
    }
}

/// The heights of the levels before `index`, with the spacing after each.
pub open spec fn heights_before(levels: Seq<LevelBounds>, spacing: i32, index: int) -> int
    decreases index,
{
    if index <= 0 {
        0
    } else {
        heights_before(levels, spacing, index - 1) + levels[index - 1].px_hei + spacing
    }
}

/// The lower left corner of level `index`. A level that says where it lies is
/// put there, turned upside down. A level in a row starts where the levels
/// before it end; a level in a column hangs below them.
pub open spec fn level_translation_of(
    layout: WorldLayout,
    levels: Seq<LevelBounds>,
    spacing: i32,
    index: int,
) -> (int, int) {
    match layout {
        WorldLayout::Free | WorldLayout::GridVania => (
            levels[index].world_x as int,
            -levels[index].world_y - levels[index].px_hei,
        ),
        WorldLayout::LinearHorizontal => (widths_before(levels, spacing, index), 0),
        WorldLayout::LinearVertical => (0, -heights_before(levels, spacing, index)),
    }
}

proof fn lemma_sums_bounded(levels: Seq<LevelBounds>, spacing: i32, index: int)
    requires
        0 <= index <= levels.len(),
    ensures
        -index * 0x1_0000_0000 <= widths_before(levels, spacing, index) <= index * 0x1_0000_0000,
        -index * 0x1_0000_0000 <= heights_before(levels, spacing, index) <= index
            * 0x1_0000_0000,
    decreases index,
{
    if index > 0 {
        lemma_sums_bounded(levels, spacing, index - 1);
        assert(-(index - 1) * 0x1_0000_0000 == -index * 0x1_0000_0000 + 0x1_0000_0000)
            by (nonlinear_arith);
        assert((index - 1) * 0x1_0000_0000 == index * 0x1_0000_0000 - 0x1_0000_0000)
            by (nonlinear_arith);
    }
}

/// Computes the lower left corner of level `index`, which is exact: the sums
/// are taken in 128 bits, where they cannot overflow.
pub fn get_level_translation(
    layout: WorldLayout,
    levels: &Vec<LevelBounds>,
    spacing: i32,
    index: usize,
) -> (r: (i128, i128))
    requires
        index < levels@.len(),
    ensures
        (r.0 as int, r.1 as int) == level_translation_of(layout, levels@, spacing, index as int),
{
    match layout {
        WorldLayout::Free | WorldLayout::GridVania => {
            let level = levels[index];
            (level.world_x as i128, -(level.world_y as i128) - level.px_hei as i128)
        },
        WorldLayout::LinearHorizontal => {
            let mut offset: i128 = 0;
            let mut i: usize = 0;
            while i < index
                invariant
                    i <= index < levels@.len(),
                    offset == widths_before(levels@, spacing, i as int),
                decreases index - i,
            {
                proof {
                    lemma_sums_bounded(levels@, spacing, i as int);
                    assert(i * 0x1_0000_0000 <= 0xffff_ffff_ffff_ffff * 0x1_0000_0000)
                        by (nonlinear_arith)
                        requires
                            0 <= i <= 0xffff_ffff_ffff_ffff,
                    ;
                }
                offset = offset + levels[i].px_wid as i128 + spacing as i128;
                i = i + 1;
            }
            (offset, 0)
        },
        WorldLayout::LinearVertical => {
            let mut offset: i128 = 0;
            let mut i: usize = 0;
            while i < index
                invariant
                    i <= index < levels@.len(),
                    offset == heights_before(levels@, spacing, i as int),
                decreases index - i,
            {
                proof {
                    lemma_sums_bounded(levels@, spacing, i as int);
                    assert(i * 0x1_0000_0000 <= 0xffff_ffff_ffff_ffff * 0x1_0000_0000)
                        by (nonlinear_arith)
                        requires
                            0 <= i <= 0xffff_ffff_ffff_ffff,
                    ;
                }
                offset = offset + levels[i].px_hei as i128 + spacing as i128;
                i = i + 1;
            }
            proof {
                lemma_sums_bounded(levels@, spacing, index as int);
                assert(index * 0x1_0000_0000 <= 0xffff_ffff_ffff_ffff * 0x1_0000_0000)
                    by (nonlinear_arith)
                    requires
                        0 <= index <= 0xffff_ffff_ffff_ffff,
                ;
            }
            (0, -offset)
        },
    }
}

/// The number of the tile of a tileset whose upper left corner is at the
/// pixel `(x_pos, y_pos)`: tiles are counted row after row, in rows as long
/// as the tileset is wide.
pub open spec fn atlas_index_of(x_pos: u32, y_pos: u32, tile_size: UVec2, size: UVec2) -> int {
    (y_pos as int / tile_size.y as int) * size.x + x_pos as int / tile_size.x as int
}

/// Computes the number of the tile at a pixel of a tileset.
pub fn atlas_index(x_pos: u32, y_pos: u32, tile_size: UVec2, size: UVec2) -> (index: u64)
    requires
        tile_size.x > 0,
        tile_size.y > 0,
    ensures
        index == atlas_index_of(x_pos, y_pos, tile_size, size),
{
    let column: u64 = (x_pos / tile_size.x) as u64;
    let row: u64 = (y_pos / tile_size.y) as u64;
    proof {
        assert(row * size.x <= 0xffff_ffff * 0xffff_ffff) by (nonlinear_arith)
            requires
                0 <= row <= 0xffff_ffff,
                0 <= size.x <= 0xffff_ffff,
        ;
    }
    row * size.x as u64 + column
}

} // verus!
