//! Render chunks: the tiles of one square of a tilemap, and their mesh.

use vstd::prelude::*;
use crate::handle::BufferId;
use crate::math::{floor_div, Aabb2d, IVec2, IVec3, IVec4, UVec2, UVec4};
use crate::render::extract::{layer_flip, layer_texture_index, ExtractedTile, ExtractedTilemap};
use crate::render::mesh::{
    empty_mesh, lemma_mesh_indices_len, lemma_mesh_quad_of_cell, lemma_mesh_vertices_len,
    lemma_mesh_winding, lemma_populated_bound, lemma_populated_positive, mesh_of, populated, quad_indices, quad_vertices,
    vertex_of, ChunkMesh, MeshView, TileVertex,
};
use crate::tilemap::map::{TilemapTexture, TilemapType};
use crate::tilemap::tile::{TileColor, TileLayer, TileTexture};
use crate::NO_TEXTURE;

verus! {

/// The longest side a chunk can have: with it the index count of a full
/// chunk still fits the 32 bits of an index.
pub const MAX_CHUNK_SIZE: u32 = 26754;

/// A chunk side that a chunk can be made with.
pub open spec fn valid_chunk_size(size: u32) -> bool {
    0 < size && 6 * (size * size) <= u32::MAX
}

/// Tells whether a chunk can be made with this side.
pub fn is_valid_chunk_size(size: u32) -> (b: bool)
    ensures
        b == valid_chunk_size(size),
{
    proof {
        if size <= MAX_CHUNK_SIZE {
            assert(size * size <= 26754 * 26754) by (nonlinear_arith)
                requires
                    0 <= size <= 26754,
            ;
        } else {
            assert(size * size >= 26755 * 26755) by (nonlinear_arith)
                requires
                    size >= 26755,
            ;
        }
    }
    0 < size && size <= MAX_CHUNK_SIZE
}

/// What a tile in a chunk shows.
#[derive(Clone, Copy, Debug, PartialEq, Eq, Structural)]
pub enum MeshTileTexture {
    /// Still layers: one texture index and one set of flip flags per layer,
    /// with `NO_TEXTURE` and 0 for a layer that is not there.
    Static { texture_indices: IVec4, flip: UVec4 },
    /// One animation sequence of the tilemap.
    Animated { sequence: u32 },
}

/// The render attributes of one tile in a chunk.
#[derive(Clone, Copy, Debug, PartialEq, Eq, Structural)]
pub struct MeshTileData {
    /// Where the tile sits in the tilemap.
    pub index: IVec2,
    pub texture: MeshTileTexture,
    pub color: TileColor,
}

/// The render attributes that a tile is stored with.
pub open spec fn tile_data(tile: ExtractedTile) -> MeshTileData {
    MeshTileData {
        index: tile.index,
        texture: match tile.texture {
            TileTexture::Static(layers) => MeshTileTexture::Static {
                texture_indices: IVec4 {
                    x: layer_texture_index(layers@, 0),
                    y: layer_texture_index(layers@, 1),
                    z: layer_texture_index(layers@, 2),
                    w: layer_texture_index(layers@, 3),
                },
                flip: UVec4 {
                    x: layer_flip(layers@, 0),
                    y: layer_flip(layers@, 1),
                    z: layer_flip(layers@, 2),
                    w: layer_flip(layers@, 3),
                },
            },
            TileTexture::Animated(sequence) => MeshTileTexture::Animated { sequence },
        },
        color: tile.color,
    }
}

fn texture_index_at(layers: &Vec<TileLayer>, i: usize) -> (r: i32)
    ensures
        r == layer_texture_index(layers@, i as int),
{
    if i < layers.len() {
        layers[i].texture_index
    } else {
        NO_TEXTURE
    }
}

fn flip_at(layers: &Vec<TileLayer>, i: usize) -> (r: u32)
    ensures
        r == layer_flip(layers@, i as int),
{
    if i < layers.len() {
        layers[i].flip
    } else {
        0
    }
}

impl MeshTileData {
    /// The render attributes of a tile: its place, its tint, and its layers
    /// spread over the four layer slots, or its animation.
    pub fn from_tile(tile: &ExtractedTile) -> (data: MeshTileData)
        requires
            tile.wf(),
        ensures
            data == tile_data(*tile),
    {
        let texture = match &tile.texture {
            TileTexture::Static(layers) => MeshTileTexture::Static {
                texture_indices: IVec4 {
                    x: texture_index_at(layers, 0),
                    y: texture_index_at(layers, 1),
                    z: texture_index_at(layers, 2),
                    w: texture_index_at(layers, 3),
                },
                flip: UVec4 {
                    x: flip_at(layers, 0),
                    y: flip_at(layers, 1),
                    z: flip_at(layers, 2),
                    w: flip_at(layers, 3),
                },
            },
            TileTexture::Animated(sequence) => MeshTileTexture::Animated { sequence: *sequence },
        };
        MeshTileData { index: tile.index, texture, color: tile.color }
    }

    /// The vertex that the four corners of this tile's quad share.
    pub fn vertex(&self) -> (v: TileVertex)
        ensures
            v == vertex_of(*self),
    {
        match self.texture {
            MeshTileTexture::Static { texture_indices, flip } => TileVertex {
                index: IVec3 { x: self.index.x, y: self.index.y, z: 0 },
                texture_indices,
                color: self.color,
                flip,
            },
            MeshTileTexture::Animated { sequence } => TileVertex {
                index: IVec3 { x: self.index.x, y: self.index.y, z: 1 },
                texture_indices: IVec4 {
                    x: #[verifier::truncate] (sequence as i32),
                    y: NO_TEXTURE,
                    z: NO_TEXTURE,
                    w: NO_TEXTURE,
                },
                color: self.color,
                flip: UVec4 { x: 0, y: 0, z: 0, w: 0 },
            },
        }
    }
}

/// How the index buffer of an uploaded mesh is used.
#[derive(Clone, Copy, Debug, PartialEq, Eq, Structural)]
pub enum GpuBufferInfo {
    /// Drawn through an index buffer of `count` 32-bit indices.
    Indexed { buffer: BufferId, count: u32 },
    /// Drawn from the vertex buffer alone.
    NonIndexed,
}

/// A mesh as it lies on the GPU.
#[derive(Clone, Copy, Debug, PartialEq, Eq, Structural)]
pub struct GpuMesh {
    pub vertex_buffer: BufferId,
    pub vertex_count: u32,
    pub buffer_info: GpuBufferInfo,
}

/// The buffers that the host made for a mesh.
#[derive(Clone, Copy, Debug, PartialEq, Eq, Structural)]
pub struct UploadedBuffers {
    pub vertex_buffer: BufferId,
    pub index_buffer: BufferId,
}

/// Why a chunk has no new mesh on the GPU. None of these is final: the chunk
/// stays dirty and is tried again.
#[derive(Clone, Copy, Debug, PartialEq, Eq, Structural)]
pub enum UploadError {
    /// The device had no memory for the buffers.
    OutOfMemory,
    /// The device went away.
    DeviceLost,
    /// The chunk waits for no upload: none was asked for, or a tile changed
    /// since.
    Stale,
}

/// What `update_mesh` did, and what is left to the host.
#[derive(Clone, Copy, Debug, PartialEq, Eq, Structural)]
pub enum MeshUpdate {
    /// The chunk was clean. Nothing was done.
    UpToDate,
    /// The chunk holds no tile. It is clean now and has no mesh on the GPU.
    Emptied,
    /// The mesh was rebuilt. The host uploads it and tells `finish_upload`
    /// how that went.
    Upload,
}

/// The cell of a chunk in which the tile with this local index is kept. Rows
/// follow each other from the bottom up, and a row runs from left to right.
pub open spec fn slot_of(size: u32, index: UVec2) -> int {
    index.y * size + index.x
}

/// The cells of the tilemap that the chunk with this coordinate covers.
pub open spec fn chunk_aabb(index: IVec2, size: u32) -> Aabb2d {
    Aabb2d {
        min_x: (index.x * size) as i64,
        min_y: (index.y * size) as i64,
        max_x: (index.x * size + size) as i64,
        max_y: (index.y * size + size) as i64,
    }
}

/// The coordinate of the chunk that holds the tile at `tile_index`.
pub open spec fn chunk_index_of(tile_index: IVec2, size: u32) -> IVec2 {
    IVec2 {
        x: floor_div(tile_index.x as int, size as int) as i32,
        y: floor_div(tile_index.y as int, size as int) as i32,
    }
}

/// Computes the coordinate of the chunk that holds the tile at `tile_index`.
pub fn chunk_index(tile_index: IVec2, size: u32) -> (index: IVec2)
    requires
        valid_chunk_size(size),
    ensures
        index == chunk_index_of(tile_index, size),
        index.x == floor_div(tile_index.x as int, size as int),
        index.y == floor_div(tile_index.y as int, size as int),
{
    proof {
        assert(size <= MAX_CHUNK_SIZE) by (nonlinear_arith)
            requires
                6 * (size * size) <= u32::MAX,
        ;
    }
    tile_index.div_to_floor(IVec2::splat(size as i32))
}

/// What a chunk holds.
pub struct ChunkView {
    pub visible: bool,
    /// The chunk's coordinate, counted in chunks.
    pub index: IVec2,
    /// Whether a tile changed since the mesh last reached the GPU.
    pub dirty_mesh: bool,
    /// Whether the mesh was rebuilt and waits for its upload.
    pub staged: bool,
    pub ty: TilemapType,
    /// The side of the chunk, in tiles.
    pub size: u32,
    pub texture: Option<TilemapTexture>,
    pub tiles: Seq<Option<MeshTileData>>,
    pub mesh: MeshView,
    pub gpu_mesh: Option<GpuMesh>,
    pub aabb: Aabb2d,
}

impl ChunkView {
    /// A new chunk for the tile at `tile_index`: visible, without tiles,
    /// dirty, with nothing on the GPU.
    pub open spec fn fresh(tile_index: IVec2, tilemap: ExtractedTilemap) -> ChunkView {
        ChunkView {
            visible: true,
            index: chunk_index_of(tile_index, tilemap.chunk_size),
            dirty_mesh: true,
            staged: false,
            ty: tilemap.ty,
            size: tilemap.chunk_size,
            texture: tilemap.texture,
            tiles: Seq::new((tilemap.chunk_size * tilemap.chunk_size) as nat, |i: int| None),
            mesh: empty_mesh(),
            gpu_mesh: None,
            aabb: chunk_aabb(chunk_index_of(tile_index, tilemap.chunk_size), tilemap.chunk_size),
        }
    }

    /// The mesh on the GPU that belongs to a mesh with these counts.
    pub open spec fn uploaded(mesh: MeshView, buffers: UploadedBuffers) -> GpuMesh {
        GpuMesh {
            vertex_buffer: buffers.vertex_buffer,
            vertex_count: mesh.vertices.len() as u32,
            buffer_info: GpuBufferInfo::Indexed {
                buffer: buffers.index_buffer,
                count: mesh.indices.len() as u32,
            },
        }
    }

    /// The mesh that the tiles of this chunk call for.
    pub open spec fn current_mesh(self) -> MeshView {
        mesh_of(self.tiles, self.texture is Some)
    }

    /// The invariant of a chunk. A clean chunk's mesh is the mesh of its
    /// tiles; it lies on the GPU, with as many vertices and indices, unless
    /// the chunk is empty, which has nothing there. A staged mesh is the mesh
    /// of the chunk's tiles too, and is not empty.
    pub open spec fn wf(self) -> bool {
        &&& valid_chunk_size(self.size)
        &&& self.tiles.len() == self.size * self.size
        &&& self.aabb == chunk_aabb(self.index, self.size)
        &&& self.staged ==> {
            &&& self.dirty_mesh
            &&& self.mesh == self.current_mesh()
            &&& populated(self.tiles) > 0
        }
        &&& !self.dirty_mesh ==> {
            &&& self.mesh == self.current_mesh()
            &&& populated(self.tiles) == 0 ==> self.gpu_mesh is None
            &&& populated(self.tiles) > 0 ==> {
                &&& self.gpu_mesh matches Some(gpu)
                &&& gpu.vertex_count == 4 * populated(self.tiles)
                &&& gpu.buffer_info matches GpuBufferInfo::Indexed { count, .. }
                &&& count == 6 * populated(self.tiles)
            }
        }
    }

    /// The chunk after a cell was written.
    pub open spec fn with_cell(self, slot: int, cell: Option<MeshTileData>) -> ChunkView {
        ChunkView { tiles: self.tiles.update(slot, cell), dirty_mesh: true, staged: false, ..self }
    }

    /// The chunk after `update_mesh`.
    pub open spec fn update_mesh(self) -> ChunkView {
        if !self.dirty_mesh {
            self
        } else if populated(self.tiles) == 0 {
            ChunkView {
                mesh: self.current_mesh(),
                gpu_mesh: None,
                dirty_mesh: false,
                staged: false,
                ..self
            }
        } else {
            ChunkView { mesh: self.current_mesh(), staged: true, ..self }
        }
    }

    /// What `update_mesh` answers.
    pub open spec fn update_action(self) -> MeshUpdate {
        if !self.dirty_mesh {
            MeshUpdate::UpToDate
        } else if populated(self.tiles) == 0 {
            MeshUpdate::Emptied
        } else {
            MeshUpdate::Upload
        }
    }

    /// The chunk after `finish_upload`.
    pub open spec fn finish_upload(self, outcome: Result<UploadedBuffers, UploadError>) -> ChunkView {
        if !self.staged {
            self
        } else {
            match outcome {
                Ok(buffers) => ChunkView {
                    gpu_mesh: Some(Self::uploaded(self.mesh, buffers)),
                    dirty_mesh: false,
                    staged: false,
                    ..self
                },
                Err(_) => self,
            }
        }
    }

    /// What `finish_upload` answers.
    pub open spec fn upload_result(self, outcome: Result<UploadedBuffers, UploadError>) -> Result<
        (),
        UploadError,
    > {
        if !self.staged {
            Err(UploadError::Stale)
        } else {
            match outcome {
                Ok(_) => Ok(()),
                Err(e) => Err(e),
            }
        }
    }

    /// The chunk after a row of tiles was set, one after the other; each
    /// entry names the cell and what is put there.
    pub open spec fn set_tiles(self, writes: Seq<(int, MeshTileData)>) -> ChunkView
        decreases writes.len(),
    {
        if writes.len() == 0 {
            self
        } else {
            self.set_tiles(writes.drop_last()).with_cell(writes.last().0, Some(writes.last().1))
        }
    }

    /// The chunk after one whole rebuild: `update_mesh`, and `finish_upload`
    /// with the outcome of the upload where `update_mesh` asked for one.
    pub open spec fn rebuild(self, outcome: Result<UploadedBuffers, UploadError>) -> ChunkView {
        if self.update_action() == MeshUpdate::Upload {
            self.update_mesh().finish_upload(outcome)
        } else {
            self.update_mesh()
        }
    }

    /// How many uploads one whole rebuild asks for.
    pub open spec fn uploads(self) -> nat {
        if self.update_action() == MeshUpdate::Upload {
            1
        } else {
            0
        }
    }
}

/// Setting tiles keeps a chunk well formed, fills the cells that were
/// written, and leaves the other cells as they were.
pub proof fn lemma_set_tiles(chunk: ChunkView, writes: Seq<(int, MeshTileData)>)
    requires
        chunk.wf(),
        forall|i: int| 0 <= i < writes.len() ==> 0 <= (#[trigger] writes[i]).0 < chunk.tiles.len(),
    ensures
        chunk.set_tiles(writes).wf(),
        chunk.set_tiles(writes).tiles.len() == chunk.tiles.len(),
        writes.len() > 0 ==> chunk.set_tiles(writes).dirty_mesh,
        forall|i: int|
            0 <= i < writes.len() ==> chunk.set_tiles(writes).tiles[(#[trigger] writes[i]).0]
                is Some,
        forall|slot: int|
            0 <= slot < chunk.tiles.len() && (forall|i: int|
                0 <= i < writes.len() ==> (#[trigger] writes[i]).0 != slot) ==> chunk.set_tiles(
                writes,
            ).tiles[slot] == chunk.tiles[slot],
    decreases writes.len(),
{
    if writes.len() > 0 {
        let before = writes.drop_last();
        lemma_set_tiles(chunk, before);
        let mid = chunk.set_tiles(before);
        let after = chunk.set_tiles(writes);
        assert(after == mid.with_cell(writes.last().0, Some(writes.last().1)));
        assert forall|i: int| 0 <= i < writes.len() implies after.tiles[(#[trigger] writes[i]).0]
            is Some by {
            if i < writes.len() - 1 {
                assert(before[i] == writes[i]);
                assert(mid.tiles[before[i].0] is Some);
            }
        }
        assert forall|slot: int|
            0 <= slot < chunk.tiles.len() && (forall|i: int|
                0 <= i < writes.len() ==> (#[trigger] writes[i]).0 != slot) implies after.tiles[slot]
            == chunk.tiles[slot] by {
            assert(writes[writes.len() - 1].0 != slot);
            assert forall|i: int| 0 <= i < before.len() implies (#[trigger] before[i]).0
                != slot by {
                assert(before[i] == writes[i]);
            }
        }
    }
}

/// Whatever tiles were set before, a rebuilt mesh has exactly one quad for
/// every cell that holds a tile and nothing for an empty cell: four vertices
/// and six indices for each tile. The quad of a tile stands behind the quads
/// of the tiles in the cells before it, and its corners carry the tile's
/// attributes.
pub proof fn lemma_rebuilt_mesh_has_one_quad_per_tile(
    chunk: ChunkView,
    writes: Seq<(int, MeshTileData)>,
)
    requires
        chunk.wf(),
        forall|i: int| 0 <= i < writes.len() ==> 0 <= (#[trigger] writes[i]).0 < chunk.tiles.len(),
    ensures
        ({
            let built = chunk.set_tiles(writes).update_mesh();
            &&& built.wf()
            &&& built.tiles == chunk.set_tiles(writes).tiles
            &&& built.mesh == built.current_mesh()
            &&& built.mesh.vertices.len() == 4 * populated(built.tiles)
            &&& built.mesh.indices.len() == 6 * populated(built.tiles)
            &&& forall|slot: int|
                0 <= slot < built.tiles.len() && (#[trigger] built.tiles[slot]) is Some ==> {
                    let first = 4 * (populated(built.tiles.take(slot)) as int);
                    &&& first + 4 <= built.mesh.vertices.len()
                    &&& built.mesh.vertices.subrange(first, first + 4) == quad_vertices(
                        built.tiles[slot]->0,
                    )
                }
            &&& forall|q: int|
                0 <= q < populated(built.tiles) ==> #[trigger] built.mesh.indices.subrange(
                    6 * q,
                    6 * q + 6,
                ) == quad_indices(4 * q)
        }),
{
    lemma_set_tiles(chunk, writes);
    let set = chunk.set_tiles(writes);
    let built = set.update_mesh();
    lemma_mesh_vertices_len(built.tiles);
    lemma_mesh_indices_len(populated(built.tiles));
    assert forall|slot: int|
        0 <= slot < built.tiles.len() && (#[trigger] built.tiles[slot]) is Some implies {
            let first = 4 * (populated(built.tiles.take(slot)) as int);
            &&& first + 4 <= built.mesh.vertices.len()
            &&& built.mesh.vertices.subrange(first, first + 4) == quad_vertices(
                built.tiles[slot]->0,
            )
        } by {
        lemma_mesh_quad_of_cell(built.tiles, slot);
    }
    assert forall|q: int| 0 <= q < populated(built.tiles) implies #[trigger] built.mesh.indices.subrange(
        6 * q,
        6 * q + 6,
    ) == quad_indices(4 * q) by {
        lemma_mesh_winding(populated(built.tiles), q);
    }
}

/// A rebuild keeps a chunk well formed, whatever the upload came to.
pub proof fn lemma_rebuild_wf(chunk: ChunkView, outcome: Result<UploadedBuffers, UploadError>)
    requires
        chunk.wf(),
    ensures
        chunk.update_mesh().wf(),
        chunk.update_mesh().finish_upload(outcome).wf(),
        chunk.finish_upload(outcome).wf(),
        chunk.rebuild(outcome).wf(),
{
    lemma_populated_bound(chunk.tiles);
    lemma_mesh_vertices_len(chunk.tiles);
    lemma_mesh_indices_len(populated(chunk.tiles));
    assert(chunk.tiles.len() == chunk.size * chunk.size);
}

/// Rebuilding twice is rebuilding once. After a rebuild whose upload went
/// well, or needed none, the chunk is clean; a second rebuild asks for no
/// upload and changes nothing, so that the chunk keeps the very mesh on the
/// GPU that the first rebuild gave it.
pub proof fn lemma_rebuild_idempotent(
    chunk: ChunkView,
    first: Result<UploadedBuffers, UploadError>,
    second: Result<UploadedBuffers, UploadError>,
)
    requires
        chunk.wf(),
        first is Ok,
    ensures
        !chunk.rebuild(first).dirty_mesh,
        chunk.rebuild(first).update_action() == MeshUpdate::UpToDate,
        chunk.rebuild(first).uploads() == 0,
        chunk.rebuild(first).rebuild(second) == chunk.rebuild(first),
        chunk.rebuild(first).rebuild(second).gpu_mesh == chunk.rebuild(first).gpu_mesh,
        chunk.uploads() + chunk.rebuild(first).uploads() <= 1,
{
}

/// A failed upload costs nothing: the chunk keeps the mesh that it had on the
/// GPU, hands the error on, stays dirty, and its next rebuild asks for the
/// upload again.
pub proof fn lemma_failed_upload_keeps_gpu_mesh(chunk: ChunkView, error: UploadError)
    requires
        chunk.wf(),
        chunk.dirty_mesh,
        populated(chunk.tiles) > 0,
    ensures
        chunk.update_action() == MeshUpdate::Upload,
        chunk.update_mesh().upload_result(Err(error)) == Err::<(), UploadError>(error),
        chunk.rebuild(Err(error)).gpu_mesh == chunk.gpu_mesh,
        chunk.rebuild(Err(error)).dirty_mesh,
        chunk.rebuild(Err(error)).tiles == chunk.tiles,
        chunk.rebuild(Err(error)).update_action() == MeshUpdate::Upload,
{
}

/// A tile that is set leaves its chunk dirty and what the chunk has on the GPU
/// alone; the next rebuild of the chunk then asks for an upload. A clean chunk
/// has a mesh on the GPU just when it holds a tile.
pub proof fn lemma_dirty_tracking(chunk: ChunkView, slot: int, cell: Option<MeshTileData>)
    requires
        chunk.wf(),
        0 <= slot < chunk.tiles.len(),
    ensures
        chunk.with_cell(slot, cell).wf(),
        chunk.with_cell(slot, cell).dirty_mesh,
        chunk.with_cell(slot, cell).gpu_mesh == chunk.gpu_mesh,
        cell is Some ==> chunk.with_cell(slot, cell).update_action() == MeshUpdate::Upload,
        !chunk.dirty_mesh ==> (chunk.gpu_mesh is Some <==> populated(chunk.tiles) > 0),
{
    if cell is Some {
        lemma_populated_positive(chunk.with_cell(slot, cell).tiles, slot);
    }
}

/// One square of a tilemap: its tiles, the mesh built from them, and the
/// buffers on the GPU that hold the mesh.
#[derive(Clone, Debug)]
pub struct TilemapRenderChunk {
    visible: bool,
    index: IVec2,
    dirty_mesh: bool,
    staged: bool,
    ty: TilemapType,
    size: u32,
    texture: Option<TilemapTexture>,
    tiles: Vec<Option<MeshTileData>>,
    mesh: ChunkMesh,
    gpu_mesh: Option<GpuMesh>,
    aabb: Aabb2d,
}

impl View for TilemapRenderChunk {
    type V = ChunkView;

    closed spec fn view(&self) -> ChunkView {
        ChunkView {
            visible: self.visible,
            index: self.index,
            dirty_mesh: self.dirty_mesh,
            staged: self.staged,
            ty: self.ty,
            size: self.size,
            texture: self.texture,
            tiles: self.tiles@,
            mesh: self.mesh@,
            gpu_mesh: self.gpu_mesh,
            aabb: self.aabb,
        }
    }
}

fn empty_cells(count: usize) -> (tiles: Vec<Option<MeshTileData>>)
    ensures
        tiles@ == Seq::new(count as nat, |i: int| None::<MeshTileData>),
{
    let mut tiles: Vec<Option<MeshTileData>> = Vec::with_capacity(count);
    let mut i: usize = 0;
    while i < count
        invariant
            i <= count,
            tiles@ == Seq::new(i as nat, |i: int| None::<MeshTileData>),
        decreases count - i,
    {
        tiles.push(None);
        i = i + 1;
        proof {
            assert(tiles@ =~= Seq::new(i as nat, |i: int| None::<MeshTileData>));
        }
    }
    tiles
}

fn aabb_of(index: IVec2, size: u32) -> (aabb: Aabb2d)
    ensures
        aabb == chunk_aabb(index, size),
{
    let s: i64 = size as i64;
    let x: i64 = index.x as i64;
    let y: i64 = index.y as i64;
    proof {
        assert(-0x8000_0000 * 0xffff_ffff <= x * s <= 0x7fff_ffff * 0xffff_ffff)
            by (nonlinear_arith)
            requires
                -0x8000_0000 <= x <= 0x7fff_ffff,
                0 <= s <= 0xffff_ffff,
        ;
        assert(-0x8000_0000 * 0xffff_ffff <= y * s <= 0x7fff_ffff * 0xffff_ffff)
            by (nonlinear_arith)
            requires
                -0x8000_0000 <= y <= 0x7fff_ffff,
                0 <= s <= 0xffff_ffff,
        ;
    }
    Aabb2d { min_x: x * s, min_y: y * s, max_x: x * s + s, max_y: y * s + s }
}

impl TilemapRenderChunk {
    /// Makes the chunk that holds the tile at `index`. It is visible, has no
    /// tile yet and nothing on the GPU, and is dirty.
    pub fn from_index(index: IVec2, tilemap: &ExtractedTilemap) -> (chunk: TilemapRenderChunk)
        requires
            valid_chunk_size(tilemap.chunk_size),
        ensures
            chunk@ == ChunkView::fresh(index, *tilemap),
            chunk@.wf(),
    {
        let size = tilemap.chunk_size;
        let chunk_index = chunk_index(index, size);
        let count: u32 = size * size;
        TilemapRenderChunk {
            visible: true,
            index: chunk_index,
            dirty_mesh: true,
            staged: false,
            ty: tilemap.ty,
            size,
            texture: tilemap.texture,
            tiles: empty_cells(count as usize),
            mesh: ChunkMesh::new(),
            gpu_mesh: None,
            aabb: aabb_of(chunk_index, size),
        }
    }

    /// Puts a tile into the cell with this local index, over whatever was
    /// there, and marks the chunk dirty.
    pub fn set_tile(&mut self, index: UVec2, tile: &ExtractedTile)
        requires
            old(self)@.wf(),
            index.x < old(self)@.size,
            index.y < old(self)@.size,
            tile.wf(),
        ensures
            final(self)@ == old(self)@.with_cell(
                slot_of(old(self)@.size, index),
                Some(tile_data(*tile)),
            ),
            final(self)@.wf(),
    {
        let slot = self.slot(index);
        self.tiles[slot] = Some(MeshTileData::from_tile(tile));
        self.dirty_mesh = true;
        self.staged = false;
    }

    /// Empties the cell with this local index and marks the chunk dirty.
    pub fn remove_tile(&mut self, index: UVec2)
        requires
            old(self)@.wf(),
            index.x < old(self)@.size,
            index.y < old(self)@.size,
        ensures
            final(self)@ == old(self)@.with_cell(slot_of(old(self)@.size, index), None),
            final(self)@.wf(),
    {
        let slot = self.slot(index);
        self.tiles[slot] = None;
        self.dirty_mesh = true;
        self.staged = false;
    }

    fn slot(&self, index: UVec2) -> (slot: usize)
        requires
            self@.wf(),
            index.x < self@.size,
            index.y < self@.size,
        ensures
            slot == slot_of(self@.size, index),
            slot < self@.tiles.len(),
    {
        proof {
            let s = self.size as int;
            assert(index.y * s + index.x < s * s) by (nonlinear_arith)
                requires
                    0 <= index.x < s,
                    0 <= index.y < s,
            ;
            assert(0 <= index.y * s) by (nonlinear_arith)
                requires
                    0 <= index.y,
                    0 <= s,
            ;
        }
        (index.y * self.size + index.x) as usize
    }

    /// Rebuilds the mesh if the chunk is dirty. A clean chunk is left alone.
    /// A dirty chunk gets the mesh of its tiles. If that mesh is empty the
    /// chunk gives up its mesh on the GPU and is clean. Otherwise the mesh is
    /// staged: the chunk stays dirty and keeps what it has on the GPU until
    /// `finish_upload` hears that the upload went well.
    pub fn update_mesh(&mut self) -> (action: MeshUpdate)
        requires
            old(self)@.wf(),
        ensures
            final(self)@ == old(self)@.update_mesh(),
            action == old(self)@.update_action(),
            final(self)@.wf(),
    {
        if !self.dirty_mesh {
            return MeshUpdate::UpToDate;
        }
        self.mesh = ChunkMesh::build(&self.tiles, self.texture.is_some());
        if self.mesh.is_empty() {
            self.gpu_mesh = None;
            self.dirty_mesh = false;
            self.staged = false;
            MeshUpdate::Emptied
        } else {
            self.staged = true;
            MeshUpdate::Upload
        }
    }

    /// Takes the outcome of the upload of a staged mesh. After a good upload
    /// the chunk is clean and its mesh on the GPU is the new one. After a
    /// failed one the chunk is as before: dirty, with the mesh that it had on
    /// the GPU, and the error is handed on. A chunk with no staged mesh
    /// answers `Stale` and stays as it is.
    pub fn finish_upload(&mut self, outcome: Result<UploadedBuffers, UploadError>) -> (r: Result<
        (),
        UploadError,
    >)
        requires
            old(self)@.wf(),
        ensures
            final(self)@ == old(self)@.finish_upload(outcome),
            r == old(self)@.upload_result(outcome),
            final(self)@.wf(),
    {
        if !self.staged {
            return Err(UploadError::Stale);
        }
        match outcome {
            Ok(buffers) => {
                proof {
                    lemma_populated_bound(self.tiles@);
                    lemma_mesh_vertices_len(self.tiles@);
                    lemma_mesh_indices_len(populated(self.tiles@));
                }
                let vertex_count = self.mesh.count_vertices() as u32;
                let index_count = self.mesh.indices().len() as u32;
                self.gpu_mesh = Some(
                    GpuMesh {
                        vertex_buffer: buffers.vertex_buffer,
                        vertex_count,
                        buffer_info: GpuBufferInfo::Indexed {
                            buffer: buffers.index_buffer,
                            count: index_count,
                        },
                    },
                );
                self.dirty_mesh = false;
                self.staged = false;
                Ok(())
            },
            Err(e) => Err(e),
        }
    }

    /// Rebuilds the chunk if it is dirty, in one go: `update_mesh`, and where
    /// that stages a mesh, the upload and `finish_upload` with its outcome.
    /// `upload` is what puts a mesh on the GPU. It is called once if a mesh
    /// was staged, with that mesh, and not at all otherwise: not for a clean
    /// chunk, and not for an empty one.
    pub fn rebuild_if_dirty<F>(&mut self, upload: F) -> (r: Result<(), UploadError>) where
        F: FnOnce(&ChunkMesh) -> Result<UploadedBuffers, UploadError>,

        requires
            old(self)@.wf(),
            forall|mesh: &ChunkMesh| call_requires(upload, (mesh,)),
        ensures
            final(self)@.wf(),
            old(self)@.update_action() != MeshUpdate::Upload ==> {
                &&& r == Ok::<(), UploadError>(())
                &&& final(self)@ == old(self)@.update_mesh()
            },
            old(self)@.update_action() == MeshUpdate::Upload ==> exists|
                mesh: ChunkMesh,
                outcome: Result<UploadedBuffers, UploadError>,
            |
                {
                    &&& mesh@ == old(self)@.current_mesh()
                    &&& call_ensures(upload, (&mesh,), outcome)
                    &&& r == old(self)@.update_mesh().upload_result(outcome)
                    &&& final(self)@ == old(self)@.rebuild(outcome)
                },
    {
        match self.update_mesh() {
            MeshUpdate::Upload => {
                let outcome = upload(&self.mesh);
                let ghost staged = self.mesh;
                let r = self.finish_upload(outcome);
                proof {
                    assert(staged@ == old(self)@.current_mesh());
                    assert(call_ensures(upload, (&staged,), outcome));
                }
                r
            },
            _ => Ok(()),
        }
    }

    /// Shows or hides the chunk.
    pub fn set_visible(&mut self, visible: bool)
        ensures
            final(self)@ == (ChunkView { visible, ..old(self)@ }),
    {
        self.visible = visible;
    }

    /// Whether the chunk is drawn.
    pub fn visible(&self) -> (b: bool)
        ensures
            b == self@.visible,
    {
        self.visible
    }

    /// The chunk's coordinate, counted in chunks.
    pub fn index(&self) -> (index: IVec2)
        ensures
            index == self@.index,
    {
        self.index
    }

    /// Whether a tile changed since the mesh last reached the GPU.
    pub fn dirty_mesh(&self) -> (b: bool)
        ensures
            b == self@.dirty_mesh,
    {
        self.dirty_mesh
    }

    /// Whether a rebuilt mesh waits for its upload.
    pub fn staged(&self) -> (b: bool)
        ensures
            b == self@.staged,
    {
        self.staged
    }

    /// The shape of the cells.
    pub fn ty(&self) -> (ty: TilemapType)
        ensures
            ty == self@.ty,
    {
        self.ty
    }

    /// The side of the chunk, in tiles.
    pub fn size(&self) -> (size: u32)
        ensures
            size == self@.size,
    {
        self.size
    }

    /// The texture of the tilemap, if it has one.
    pub fn texture(&self) -> (texture: Option<TilemapTexture>)
        ensures
            texture == self@.texture,
    {
        self.texture
    }

    /// The cells, row after row from the bottom up.
    pub fn tiles(&self) -> (tiles: &Vec<Option<MeshTileData>>)
        ensures
            tiles@ == self@.tiles,
    {
        &self.tiles
    }

    /// The mesh as it was last built.
    pub fn mesh(&self) -> (mesh: &ChunkMesh)
        ensures
            mesh@ == self@.mesh,
    {
        &self.mesh
    }

    /// The mesh on the GPU, if there is one.
    pub fn gpu_mesh(&self) -> (gpu_mesh: Option<GpuMesh>)
        ensures
            gpu_mesh == self@.gpu_mesh,
    {
        self.gpu_mesh
    }

    /// The cells of the tilemap that the chunk covers.
    pub fn aabb(&self) -> (aabb: Aabb2d)
        ensures
            aabb == self@.aabb,
    {
        self.aabb
    }
}

} // verus!
