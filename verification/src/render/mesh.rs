//! The geometry of a chunk: one quad for every tile that is there.

use vstd::prelude::*;
use crate::math::{IVec3, IVec4, UVec4};
use crate::render::chunk::{MeshTileData, MeshTileTexture};
use crate::tilemap::tile::TileColor;
use crate::NO_TEXTURE;

verus! {

/// One corner of a quad, as the GPU reads it.
#[derive(Clone, Copy, Debug, PartialEq, Eq, Structural)]
pub struct TileVertex {
    /// The tile's place in the tilemap; `z` is 1 for an animated tile, else 0.
    pub index: IVec3,
    /// One texture index per layer, `NO_TEXTURE` for a layer that is not there. For an
    /// animated tile `x` is the number of the animation sequence.
    pub texture_indices: IVec4,
    pub color: TileColor,
    /// One set of flip flags per layer.
    pub flip: UVec4,
}

/// The vertex that all four corners of a tile's quad share.
pub open spec fn vertex_of(tile: MeshTileData) -> TileVertex {
    match tile.texture {
        MeshTileTexture::Static { texture_indices, flip } => TileVertex {
            index: IVec3 { x: tile.index.x, y: tile.index.y, z: 0 },
            texture_indices,
            color: tile.color,
            flip,
        },
        MeshTileTexture::Animated { sequence } => TileVertex {
            index: IVec3 { x: tile.index.x, y: tile.index.y, z: 1 },
            texture_indices: IVec4 {
                x: sequence as i32,
                y: NO_TEXTURE,
                z: NO_TEXTURE,
                w: NO_TEXTURE,
            },
            color: tile.color,
            flip: UVec4 { x: 0, y: 0, z: 0, w: 0 },
        },
    }
}

/// The four corners of a tile's quad.
pub open spec fn quad_vertices(tile: MeshTileData) -> Seq<TileVertex> {
    let v = vertex_of(tile);
    seq![v, v, v, v]
}

/// The two triangles of the quad whose first corner is vertex `v`.
pub open spec fn quad_indices(v: int) -> Seq<u32> {
    seq![v as u32, (v + 1) as u32, (v + 3) as u32, (v + 1) as u32, (v + 2) as u32, (v + 3) as u32]
}

/// How many cells hold a tile.
pub open spec fn populated(tiles: Seq<Option<MeshTileData>>) -> nat
    decreases tiles.len(),
{
    if tiles.len() == 0 {
        0
    } else {
        populated(tiles.drop_last()) + if tiles.last() is Some { 1nat } else { 0nat }
    }
}

/// The vertices of a chunk: the quads of its tiles in cell order, nothing for
/// an empty cell.
pub open spec fn mesh_vertices(tiles: Seq<Option<MeshTileData>>) -> Seq<TileVertex>
    decreases tiles.len(),
{
    if tiles.len() == 0 {
        Seq::empty()
    } else {
        mesh_vertices(tiles.drop_last()) + match tiles.last() {
            Some(tile) => quad_vertices(tile),
            None => Seq::empty(),
        }
    }
}

/// The indices of a mesh of `quads` quads.
pub open spec fn mesh_indices(quads: nat) -> Seq<u32>
    decreases quads,
{
    if quads == 0 {
        Seq::empty()
    } else {
        mesh_indices((quads - 1) as nat) + quad_indices(4 * (quads - 1))
    }
}

/// What a mesh holds.
pub struct MeshView {
    /// Whether the vertices' texture indices and flip flags are in use.
    pub textured: bool,
    pub vertices: Seq<TileVertex>,
    pub indices: Seq<u32>,
}

/// The mesh of a chunk with these cells.
pub open spec fn mesh_of(tiles: Seq<Option<MeshTileData>>, textured: bool) -> MeshView {
    MeshView {
        textured,
        vertices: mesh_vertices(tiles),
        indices: mesh_indices(populated(tiles)),
    }
}

/// The mesh with nothing in it.
pub open spec fn empty_mesh() -> MeshView {
    MeshView { textured: false, vertices: Seq::empty(), indices: Seq::empty() }
}

/// No more cells hold a tile than there are cells.
pub proof fn lemma_populated_bound(tiles: Seq<Option<MeshTileData>>)
    ensures
        populated(tiles) <= tiles.len(),
    decreases tiles.len(),
{
    if tiles.len() > 0 {
        lemma_populated_bound(tiles.drop_last());
    }
}

/// A chunk in which some cell holds a tile has a quad.
pub proof fn lemma_populated_positive(tiles: Seq<Option<MeshTileData>>, slot: int)
    requires
        0 <= slot < tiles.len(),
        tiles[slot] is Some,
    ensures
        populated(tiles) > 0,
    decreases tiles.len(),
{
    if slot < tiles.len() - 1 {
        lemma_populated_positive(tiles.drop_last(), slot);
    }
}

/// Counting up to a cell, then the cell, then the rest, counts them all.
pub proof fn lemma_populated_split(tiles: Seq<Option<MeshTileData>>, slot: int)
    requires
        0 <= slot < tiles.len(),
    ensures
        populated(tiles) == populated(tiles.take(slot)) + (if tiles[slot] is Some {
            1nat
        } else {
            0nat
        }) + populated(tiles.skip(slot + 1)),
    decreases tiles.len(),
{
    if slot == tiles.len() - 1 {
        assert(tiles.take(slot) =~= tiles.drop_last());
        assert(tiles.skip(slot + 1) =~= Seq::empty());
    } else {
        lemma_populated_split(tiles.drop_last(), slot);
        assert(tiles.drop_last().take(slot) =~= tiles.take(slot));
        assert(tiles.drop_last().skip(slot + 1) =~= tiles.skip(slot + 1).drop_last());
        assert(tiles.skip(slot + 1).last() == tiles.last());
    }
}

/// Writing one cell changes the count by that cell alone.
pub proof fn lemma_populated_update(
    tiles: Seq<Option<MeshTileData>>,
    slot: int,
    cell: Option<MeshTileData>,
)
    requires
        0 <= slot < tiles.len(),
    ensures
        populated(tiles.update(slot, cell)) + (if tiles[slot] is Some { 1nat } else { 0nat })
            == populated(tiles) + (if cell is Some { 1nat } else { 0nat }),
{
    let after = tiles.update(slot, cell);
    lemma_populated_split(tiles, slot);
    lemma_populated_split(after, slot);
    assert(after.take(slot) =~= tiles.take(slot));
    assert(after.skip(slot + 1) =~= tiles.skip(slot + 1));
}

/// A mesh has four vertices for every tile and none for an empty cell.
pub proof fn lemma_mesh_vertices_len(tiles: Seq<Option<MeshTileData>>)
    ensures
        mesh_vertices(tiles).len() == 4 * populated(tiles),
    decreases tiles.len(),
{
    if tiles.len() > 0 {
        lemma_mesh_vertices_len(tiles.drop_last());
    }
}

/// A mesh has six indices for every quad.
pub proof fn lemma_mesh_indices_len(quads: nat)
    ensures
        mesh_indices(quads).len() == 6 * quads,
    decreases quads,
{
    if quads > 0 {
        lemma_mesh_indices_len((quads - 1) as nat);
    }
}

/// The winding of every quad: its two triangles are `(v, v+1, v+3)` and
/// `(v+1, v+2, v+3)`, where `v` is the quad's first vertex.
pub proof fn lemma_mesh_winding(quads: nat, q: int)
    requires
        0 <= q < quads,
    ensures
        mesh_indices(quads).len() == 6 * quads,
        mesh_indices(quads).subrange(6 * q, 6 * q + 6) == quad_indices(4 * q),
    decreases quads,
{
    lemma_mesh_indices_len(quads);
    lemma_mesh_indices_len((quads - 1) as nat);
    if q == quads - 1 {
        assert(mesh_indices(quads).subrange(6 * q, 6 * q + 6) =~= quad_indices(4 * q));
    } else {
        lemma_mesh_winding((quads - 1) as nat, q);
        assert(mesh_indices(quads).subrange(6 * q, 6 * q + 6) =~= mesh_indices(
            (quads - 1) as nat,
        ).subrange(6 * q, 6 * q + 6));
    }
}

/// The vertices of the cells before `slot` come first.
pub proof fn lemma_mesh_vertices_prefix(tiles: Seq<Option<MeshTileData>>, slot: int)
    requires
        0 <= slot <= tiles.len(),
    ensures
        mesh_vertices(tiles.take(slot)).len() == 4 * populated(tiles.take(slot)),
        mesh_vertices(tiles.take(slot)).len() <= mesh_vertices(tiles).len(),
        mesh_vertices(tiles).take(4 * populated(tiles.take(slot)) as int) == mesh_vertices(
            tiles.take(slot),
        ),
    decreases tiles.len(),
{
    lemma_mesh_vertices_len(tiles.take(slot));
    if slot == tiles.len() {
        assert(tiles.take(slot) =~= tiles);
        assert(mesh_vertices(tiles).take(4 * populated(tiles) as int) =~= mesh_vertices(tiles));
    } else {
        lemma_mesh_vertices_prefix(tiles.drop_last(), slot);
        assert(tiles.drop_last().take(slot) =~= tiles.take(slot));
        assert(mesh_vertices(tiles).take(4 * populated(tiles.take(slot)) as int)
            =~= mesh_vertices(tiles.drop_last()).take(4 * populated(tiles.take(slot)) as int));
    }
}

/// Every tile has exactly one quad. It stands behind the quads of the tiles in
/// the cells before it, and its four corners carry the tile's attributes.
pub proof fn lemma_mesh_quad_of_cell(tiles: Seq<Option<MeshTileData>>, slot: int)
    requires
        0 <= slot < tiles.len(),
        tiles[slot] is Some,
    ensures
        populated(tiles.take(slot)) < populated(tiles),
        mesh_vertices(tiles).len() == 4 * populated(tiles),
        mesh_vertices(tiles).subrange(
            4 * populated(tiles.take(slot)) as int,
            4 * populated(tiles.take(slot)) as int + 4,
        ) == quad_vertices(tiles[slot]->0),
{
    let before = populated(tiles.take(slot));
    lemma_mesh_vertices_len(tiles);
    lemma_populated_split(tiles, slot);
    lemma_mesh_vertices_prefix(tiles, slot + 1);
    lemma_mesh_vertices_prefix(tiles.take(slot + 1), slot);
    assert(tiles.take(slot + 1).take(slot) =~= tiles.take(slot));
    assert(tiles.take(slot + 1).drop_last() =~= tiles.take(slot));
    assert(tiles.take(slot + 1).last() == tiles[slot]);
    assert(populated(tiles.take(slot + 1)) == before + 1);
    let upto = mesh_vertices(tiles.take(slot + 1));
    assert(upto == mesh_vertices(tiles.take(slot)) + quad_vertices(tiles[slot]->0));
    assert(upto.subrange(4 * before as int, 4 * before as int + 4) =~= quad_vertices(
        tiles[slot]->0,
    ));
    assert(mesh_vertices(tiles).subrange(4 * before as int, 4 * before as int + 4)
        =~= mesh_vertices(tiles).take(4 * (before + 1) as int).subrange(
        4 * before as int,
        4 * before as int + 4,
    ));
}

/// The quad geometry of one chunk.
#[derive(Clone, Debug)]
pub struct ChunkMesh {
    textured: bool,
    vertices: Vec<TileVertex>,
    indices: Vec<u32>,
}

impl View for ChunkMesh {
    type V = MeshView;

    closed spec fn view(&self) -> MeshView {
        MeshView { textured: self.textured, vertices: self.vertices@, indices: self.indices@ }
    }
}

impl ChunkMesh {
    /// A mesh without any quad.
    pub fn new() -> (mesh: ChunkMesh)
        ensures
            mesh@ == empty_mesh(),
    {
        ChunkMesh { textured: false, vertices: Vec::new(), indices: Vec::new() }
    }

    /// Builds the mesh of a chunk: for every cell that holds a tile, in cell
    /// order, four vertices with the tile's attributes and the six indices of
    /// its two triangles.
    pub fn build(tiles: &Vec<Option<MeshTileData>>, textured: bool) -> (mesh: ChunkMesh)
        requires
            6 * tiles@.len() <= u32::MAX,
        ensures
            mesh@ == mesh_of(tiles@, textured),
            mesh@.vertices.len() == 4 * populated(tiles@),
            mesh@.indices.len() == 6 * populated(tiles@),
    {
        let mut vertices: Vec<TileVertex> = Vec::new();
        let mut indices: Vec<u32> = Vec::new();
        let mut v_index: u32 = 0;
        let mut i: usize = 0;
        proof {
            assert(tiles@.take(0) =~= Seq::empty());
        }
        while i < tiles.len()
            invariant
                i <= tiles@.len(),
                6 * tiles@.len() <= u32::MAX,
                populated(tiles@.take(i as int)) <= i,
                v_index == 4 * populated(tiles@.take(i as int)),
                vertices@ == mesh_vertices(tiles@.take(i as int)),
                indices@ == mesh_indices(populated(tiles@.take(i as int))),
            decreases tiles@.len() - i,
        {
            proof {
                assert(tiles@.take(i + 1).drop_last() =~= tiles@.take(i as int));
                assert(tiles@.take(i + 1).last() == tiles@[i as int]);
            }
            match &tiles[i] {
                Some(tile) => {
                    let v = tile.vertex();
                    vertices.push(v);
                    vertices.push(v);
                    vertices.push(v);
                    vertices.push(v);
                    indices.push(v_index);
                    indices.push(v_index + 1);
                    indices.push(v_index + 3);
                    indices.push(v_index + 1);
                    indices.push(v_index + 2);
                    indices.push(v_index + 3);
                    v_index = v_index + 4;
                    proof {
                        assert(vertices@ =~= mesh_vertices(tiles@.take(i as int)) + quad_vertices(
                            *tile,
                        ));
                        assert(indices@ =~= mesh_indices(populated(tiles@.take(i as int)))
                            + quad_indices(4 * (populated(tiles@.take(i as int)) as int)));
                    }
                },
                None => {
                    proof {
                        assert(vertices@ =~= mesh_vertices(tiles@.take(i as int)) + Seq::empty());
                    }
                },
            }
            i = i + 1;
        }
        proof {
            assert(tiles@.take(i as int) =~= tiles@);
            lemma_mesh_vertices_len(tiles@);
            lemma_mesh_indices_len(populated(tiles@));
        }
        ChunkMesh { textured, vertices, indices }
    }

    /// Whether the texture indices and flip flags of the vertices are in use.
    pub fn is_textured(&self) -> (b: bool)
        ensures
            b == self@.textured,
    {
        self.textured
    }

    /// The vertices, four for each quad.
    pub fn vertices(&self) -> (v: &Vec<TileVertex>)
        ensures
            v@ == self@.vertices,
    {
        &self.vertices
    }

    /// The indices, six for each quad.
    pub fn indices(&self) -> (v: &Vec<u32>)
        ensures
            v@ == self@.indices,
    {
        &self.indices
    }

    /// The number of vertices.
    pub fn count_vertices(&self) -> (n: usize)
        ensures
            n == self@.vertices.len(),
    {
        self.vertices.len()
    }

    /// Whether the mesh has no quad at all.
    pub fn is_empty(&self) -> (b: bool)
        ensures
            b == (self@.vertices.len() == 0),
    {
        self.vertices.len() == 0
    }
}

} // verus!
